use envfmt::params::{Param, ParamBag};
use envfmt::writer::{
    PutRequest, WriteAction, WriteEvent, WriteOutcome, WriteState, Writer, PAUSE_MILLIS,
};

fn bag(prefix: &str, params: &[(&str, &str)]) -> ParamBag {
    ParamBag {
        prefix: prefix.to_string(),
        params: params
            .iter()
            .map(|(key, value)| Param {
                key: key.to_string(),
                value: value.to_string(),
            })
            .collect(),
        next: None,
    }
}

fn expect_put(action: WriteAction) -> PutRequest {
    match action {
        WriteAction::Put(request) => request,
        other => panic!("unexpected action {:?}", other),
    }
}

fn expect_pause(action: WriteAction) -> (String, u64) {
    match action {
        WriteAction::Pause { report, millis } => (report, millis),
        other => panic!("unexpected action {:?}", other),
    }
}

#[test]
fn path_joins_prefix_and_lower_cased_key() {
    assert_eq!("/app/prod/db_password", Writer::path("/app/prod", "DB_PASSWORD"));
}

#[test]
fn path_under_empty_prefix_is_rooted_key() {
    assert_eq!("/db_host", Writer::path("", "DB_HOST"));
}

#[test]
fn path_keeps_separator_of_prefix_and_its_own() {
    assert_eq!("//db_host", Writer::path("/", "DB_HOST"));
    assert_eq!("/app//db_host", Writer::path("/app/", "DB_HOST"));
}

#[test]
fn write_back_without_prefix_goes_under_root() {
    let entries = vec![("DB_HOST".to_string(), "localhost".to_string())];
    let bag = ParamBag::from_dotenv(&entries, "");
    assert_eq!("/", bag.prefix);

    let writer = Writer::new(false);
    let (_, action) = writer.begin(&bag);

    let request = expect_put(action);
    assert_eq!("//db_host", request.name);
    assert_eq!("localhost", request.value);
}

#[test]
fn write_back_roots_relative_prefix() {
    let entries = vec![
        ("DB_HOST".to_string(), "localhost".to_string()),
        ("DB_PORT".to_string(), "5432".to_string()),
    ];
    let bag = ParamBag::from_dotenv(&entries, "app/prod");

    let plan = Writer::new(true).plan(&bag);

    assert_eq!("/app/prod/db_host", plan[0].name);
    assert_eq!("/app/prod/db_port", plan[1].name);
}

#[test]
fn pause_is_two_hundred_milliseconds() {
    assert_eq!(200, PAUSE_MILLIS);
}

#[test]
fn plan_has_one_write_per_param_in_bag_order() {
    let writer = Writer::new(true);

    let plan = writer.plan(&bag("/app", &[("ALPHA", "the"), ("BETA", "four")]));

    assert_eq!(2, plan.len());
    assert_eq!("/app/alpha", plan[0].name);
    assert_eq!("the", plan[0].value);
    assert!(plan[0].overwrite);
    assert_eq!("/app/beta", plan[1].name);
    assert_eq!("four", plan[1].value);
    assert!(plan[1].overwrite);
}

#[test]
fn plan_without_force_forbids_overwrite() {
    let writer = Writer::new(false);

    let plan = writer.plan(&bag("/app", &[("ALPHA", "the")]));

    assert!(!plan[0].overwrite);
}

#[test]
fn rejected_item_does_not_stop_accepted_item_after_it() {
    let writer = Writer::new(false);
    let (state, action) = writer.begin(&bag("/app", &[("TAKEN", "old"), ("FREE", "new")]));

    let first = expect_put(action);
    assert_eq!("/app/taken", first.name);
    assert!(!first.overwrite);

    let (state, action) = state.advance(WriteEvent::Rejected(
        "ParameterAlreadyExists".to_string(),
    ));
    let (report, millis) = expect_pause(action);
    assert_eq!(
        "Failed to write /app/taken due to ParameterAlreadyExists",
        report
    );
    assert_eq!(200, millis);

    let (state, action) = state.advance(WriteEvent::Elapsed);
    let second = expect_put(action);
    assert_eq!("/app/free", second.name);
    assert_eq!("new", second.value);

    let (state, action) = state.advance(WriteEvent::Written);
    let (report, millis) = expect_pause(action);
    assert_eq!("Wrote /app/free", report);
    assert_eq!(200, millis);

    let (state, action) = state.advance(WriteEvent::Elapsed);
    assert!(matches!(action, WriteAction::Finish));
    assert!(matches!(state, WriteState::Done { .. }));

    let outcomes = state.into_outcomes();
    assert_eq!(2, outcomes.len());
    assert_eq!("/app/taken", outcomes[0].path);
    assert_eq!(
        Some("ParameterAlreadyExists".to_string()),
        outcomes[0].failure
    );
    assert_eq!("/app/free", outcomes[1].path);
    assert_eq!(None, outcomes[1].failure);
}

#[test]
fn empty_bag_finishes_at_once() {
    let writer = Writer::new(true);

    let (state, action) = writer.begin(&bag("/app", &[]));

    assert!(matches!(action, WriteAction::Finish));
    assert!(state.into_outcomes().is_empty());
}

#[test]
fn pause_follows_the_last_write_too() {
    let writer = Writer::new(true);
    let (state, _) = writer.begin(&bag("/app", &[("ONLY", "one")]));

    let (state, action) = state.advance(WriteEvent::Written);

    assert!(matches!(state, WriteState::Pausing { .. }));
    assert_eq!(("Wrote /app/only".to_string(), 200), expect_pause(action));
}

#[test]
fn event_out_of_turn_ends_the_run() {
    let writer = Writer::new(true);
    let (state, _) = writer.begin(&bag("/app", &[("A", "1"), ("B", "2")]));
    let (state, _) = state.advance(WriteEvent::Written);

    let (state, action) = state.advance(WriteEvent::Written);

    assert!(matches!(action, WriteAction::Finish));
    let outcomes = state.into_outcomes();
    assert_eq!(1, outcomes.len());
    assert_eq!("/app/a", outcomes[0].path);
}

#[test]
fn finished_run_stays_finished() {
    let writer = Writer::new(true);
    let (state, _) = writer.begin(&bag("/app", &[]));

    let (state, action) = state.advance(WriteEvent::Elapsed);

    assert!(matches!(action, WriteAction::Finish));
    assert!(matches!(state, WriteState::Done { .. }));
}

#[test]
fn outcome_reports_success_and_failure() {
    let written = WriteOutcome {
        path: "/app/alpha".to_string(),
        failure: None,
    };
    let failed = WriteOutcome {
        path: "/app/beta".to_string(),
        failure: Some("AccessDenied".to_string()),
    };

    assert_eq!("Wrote /app/alpha", written.report());
    assert_eq!("Failed to write /app/beta due to AccessDenied", failed.report());
}

#[test]
fn join_puts_a_separator_between_prefix_and_name() {
    assert_eq!("/app/prod/db_host", Writer::join("/app/prod", "db_host"));
    assert_eq!("/NAME", Writer::join("", "NAME"));
    assert_eq!("/app//x", Writer::join("/app/", "x"));
}
