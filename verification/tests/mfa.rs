use std::collections::HashMap;

use aws_config::profile::ProfileSet;
use envfmt::mfa::{
    choose_region, AssumeRoleCall, AssumeRoleWithMFATokenProvider,
    AssumeRoleWithMFATokenProviderRequest, IssuedCredentials, MfaAction, MfaError, MfaEvent,
    MfaState, ResolveError, MAX_CHAIN_DEPTH,
};

fn profile_set(profiles: &[(&str, &[(&str, &str)])]) -> ProfileSet {
    let mut map: HashMap<String, HashMap<String, String>> = HashMap::new();
    for (name, fields) in profiles {
        let mut properties = HashMap::new();
        for (key, value) in fields.iter() {
            properties.insert(key.to_string(), value.to_string());
        }
        map.insert(name.to_string(), properties);
    }
    ProfileSet::new(map, "default")
}

/// A chain of `hops` references from "link0" to a root that holds both keys.
fn chain_of(hops: usize) -> ProfileSet {
    let mut map: HashMap<String, HashMap<String, String>> = HashMap::new();
    for i in 0..=hops {
        let mut properties = HashMap::new();
        if i == 0 {
            properties.insert("role_arn".to_string(), "arn:role/leaf".to_string());
            properties.insert("mfa_serial".to_string(), "arn:mfa/leaf".to_string());
        }
        if i < hops {
            properties.insert("source_profile".to_string(), format!("link{}", i + 1));
        } else {
            properties.insert("aws_access_key_id".to_string(), "AKIAROOT".to_string());
            properties.insert("aws_secret_access_key".to_string(), "rootsecret".to_string());
        }
        map.insert(format!("link{}", i), properties);
    }
    ProfileSet::new(map, "default")
}

fn resolve(name: &str, set: &ProfileSet) -> Result<(String, String, String, String), ResolveError> {
    AssumeRoleWithMFATokenProviderRequest::from_profile_set(name, set)
        .map(|r| (r.role, r.key, r.secret, r.mfa_serial))
}

fn resolved(role: &str, key: &str, secret: &str, mfa: &str) -> (String, String, String, String) {
    (
        role.to_string(),
        key.to_string(),
        secret.to_string(),
        mfa.to_string(),
    )
}

fn expect_call(action: MfaAction) -> AssumeRoleCall {
    match action {
        MfaAction::AssumeRole(call) => call,
        other => panic!("unexpected action {:?}", other),
    }
}

fn expect_failure(action: MfaAction) -> MfaError {
    match action {
        MfaAction::Fail(error) => error,
        other => panic!("unexpected action {:?}", other),
    }
}

fn two_profiles() -> ProfileSet {
    profile_set(&[
        (
            "dev",
            &[
                ("role_arn", "arn:aws:iam::1:role/dev"),
                ("mfa_serial", "arn:aws:iam::1:mfa/me"),
                ("source_profile", "base"),
                ("region", "eu-west-1"),
            ],
        ),
        (
            "base",
            &[
                ("aws_access_key_id", "AKIABASE"),
                ("aws_secret_access_key", "basesecret"),
            ],
        ),
    ])
}

#[test]
fn request_holds_its_four_fields() {
    let request = AssumeRoleWithMFATokenProviderRequest::new(
        "role".to_string(),
        "key".to_string(),
        "secret".to_string(),
        "serial".to_string(),
    );

    assert_eq!("role", request.role);
    assert_eq!("key", request.key);
    assert_eq!("secret", request.secret);
    assert_eq!("serial", request.mfa_serial);
}

#[test]
fn resolves_profile_that_holds_its_own_keys() {
    let set = profile_set(&[(
        "solo",
        &[
            ("role_arn", "arn:role/solo"),
            ("mfa_serial", "arn:mfa/solo"),
            ("aws_access_key_id", "AKIASOLO"),
            ("aws_secret_access_key", "solosecret"),
        ],
    )]);

    assert_eq!(
        Ok(resolved("arn:role/solo", "AKIASOLO", "solosecret", "arn:mfa/solo")),
        resolve("solo", &set)
    );
}

#[test]
fn resolves_keys_from_source_profile() {
    assert_eq!(
        Ok(resolved(
            "arn:aws:iam::1:role/dev",
            "AKIABASE",
            "basesecret",
            "arn:aws:iam::1:mfa/me"
        )),
        resolve("dev", &two_profiles())
    );
}

#[test]
fn resolves_root_keys_whatever_the_chain_length() {
    for hops in [0, 1, 2, 5, MAX_CHAIN_DEPTH] {
        assert_eq!(
            Ok(resolved("arn:role/leaf", "AKIAROOT", "rootsecret", "arn:mfa/leaf")),
            resolve("link0", &chain_of(hops)),
            "chain of {} references",
            hops
        );
    }
}

#[test]
fn chain_beyond_the_depth_bound_fails() {
    assert_eq!(
        Err(ResolveError::ChainUnresolved),
        resolve("link0", &chain_of(MAX_CHAIN_DEPTH + 1))
    );
}

#[test]
fn chain_in_a_circle_fails() {
    let set = profile_set(&[
        (
            "a",
            &[
                ("role_arn", "arn:role/a"),
                ("mfa_serial", "arn:mfa/a"),
                ("aws_access_key_id", "AKIAA"),
                ("aws_secret_access_key", "asecret"),
                ("source_profile", "b"),
            ],
        ),
        ("b", &[("source_profile", "a")]),
    ]);

    assert_eq!(Err(ResolveError::ChainUnresolved), resolve("a", &set));
}

#[test]
fn profile_that_names_itself_fails() {
    let set = profile_set(&[(
        "loop",
        &[
            ("role_arn", "arn:role/loop"),
            ("mfa_serial", "arn:mfa/loop"),
            ("source_profile", "loop"),
        ],
    )]);

    assert_eq!(Err(ResolveError::ChainUnresolved), resolve("loop", &set));
}

#[test]
fn chain_to_missing_profile_fails() {
    let set = profile_set(&[(
        "dev",
        &[
            ("role_arn", "arn:role/dev"),
            ("mfa_serial", "arn:mfa/dev"),
            ("source_profile", "gone"),
        ],
    )]);

    assert_eq!(Err(ResolveError::ChainUnresolved), resolve("dev", &set));
}

#[test]
fn missing_profile_fails() {
    assert_eq!(
        Err(ResolveError::ProfileNotFound),
        resolve("absent", &two_profiles())
    );
}

#[test]
fn missing_role_fails() {
    let set = profile_set(&[(
        "solo",
        &[
            ("mfa_serial", "arn:mfa/solo"),
            ("aws_access_key_id", "AKIASOLO"),
            ("aws_secret_access_key", "solosecret"),
        ],
    )]);

    assert_eq!(Err(ResolveError::RoleArnMissing), resolve("solo", &set));
}

#[test]
fn missing_access_key_fails() {
    let set = profile_set(&[
        (
            "dev",
            &[
                ("role_arn", "arn:role/dev"),
                ("mfa_serial", "arn:mfa/dev"),
                ("source_profile", "base"),
            ],
        ),
        ("base", &[("aws_secret_access_key", "basesecret")]),
    ]);

    assert_eq!(Err(ResolveError::AccessKeyMissing), resolve("dev", &set));
}

#[test]
fn missing_secret_key_fails() {
    let set = profile_set(&[
        (
            "dev",
            &[
                ("role_arn", "arn:role/dev"),
                ("mfa_serial", "arn:mfa/dev"),
                ("source_profile", "base"),
            ],
        ),
        ("base", &[("aws_access_key_id", "AKIABASE")]),
    ]);

    assert_eq!(Err(ResolveError::SecretKeyMissing), resolve("dev", &set));
}

#[test]
fn missing_mfa_serial_fails() {
    let set = profile_set(&[(
        "solo",
        &[
            ("role_arn", "arn:role/solo"),
            ("aws_access_key_id", "AKIASOLO"),
            ("aws_secret_access_key", "solosecret"),
        ],
    )]);

    assert_eq!(Err(ResolveError::MfaSerialMissing), resolve("solo", &set));
}

#[test]
fn role_and_mfa_serial_are_not_inherited() {
    let set = profile_set(&[
        ("dev", &[("source_profile", "base")]),
        (
            "base",
            &[
                ("role_arn", "arn:role/base"),
                ("mfa_serial", "arn:mfa/base"),
                ("aws_access_key_id", "AKIABASE"),
                ("aws_secret_access_key", "basesecret"),
            ],
        ),
    ]);

    assert_eq!(Err(ResolveError::RoleArnMissing), resolve("dev", &set));
}

#[test]
fn own_keys_go_before_inherited_keys() {
    let set = profile_set(&[
        (
            "dev",
            &[
                ("role_arn", "arn:role/dev"),
                ("mfa_serial", "arn:mfa/dev"),
                ("aws_access_key_id", "AKIADEV"),
                ("source_profile", "base"),
            ],
        ),
        (
            "base",
            &[
                ("aws_access_key_id", "AKIABASE"),
                ("aws_secret_access_key", "basesecret"),
            ],
        ),
    ]);

    assert_eq!(
        Ok(resolved("arn:role/dev", "AKIADEV", "basesecret", "arn:mfa/dev")),
        resolve("dev", &set)
    );
}

#[test]
fn keys_of_profiles_between_are_not_used() {
    let set = profile_set(&[
        (
            "dev",
            &[
                ("role_arn", "arn:role/dev"),
                ("mfa_serial", "arn:mfa/dev"),
                ("source_profile", "middle"),
            ],
        ),
        (
            "middle",
            &[
                ("aws_access_key_id", "AKIAMIDDLE"),
                ("aws_secret_access_key", "middlesecret"),
                ("source_profile", "base"),
            ],
        ),
        ("base", &[("region", "us-west-2")]),
    ]);

    assert_eq!(Err(ResolveError::AccessKeyMissing), resolve("dev", &set));
}

#[test]
fn source_profile_is_the_end_of_the_chain() {
    let set = chain_of(3);

    let root = AssumeRoleWithMFATokenProviderRequest::get_source_profile("link0", &set).unwrap();

    assert_eq!("link3", root.name());
    assert!(AssumeRoleWithMFATokenProviderRequest::get_source_profile("absent", &set).is_none());
}

#[test]
fn extract_field_takes_first_profile_that_defines_it() {
    let set = profile_set(&[
        ("first", &[("only_first", "1"), ("both", "first")]),
        ("second", &[("only_second", "2"), ("both", "second")]),
    ]);
    let profiles = [
        set.get_profile("first").unwrap(),
        set.get_profile("second").unwrap(),
    ];

    assert_eq!(
        Some("first"),
        AssumeRoleWithMFATokenProviderRequest::extract_field("both", &profiles)
    );
    assert_eq!(
        Some("2"),
        AssumeRoleWithMFATokenProviderRequest::extract_field("only_second", &profiles)
    );
    assert_eq!(
        None,
        AssumeRoleWithMFATokenProviderRequest::extract_field("neither", &profiles)
    );
}

#[test]
fn resolve_errors_have_messages() {
    assert_eq!(
        "Failed to find a profile or source",
        ResolveError::ProfileNotFound.message()
    );
    assert_eq!(
        "Failed to find a profile or source",
        ResolveError::ChainUnresolved.message()
    );
    assert_eq!(
        "Failed to find a role to assume in selected profile",
        ResolveError::RoleArnMissing.message()
    );
    assert_eq!(
        "Failed to find an access key in source profile for selected profile",
        ResolveError::AccessKeyMissing.message()
    );
    assert_eq!(
        "Failed to find a secret key in source profile for selected profile",
        ResolveError::SecretKeyMissing.message()
    );
    assert_eq!(
        "Failed to find a mfa serial to use in selected profile",
        ResolveError::MfaSerialMissing.message()
    );
}

#[test]
fn new_provider_has_nothing_set() {
    let provider = AssumeRoleWithMFATokenProvider::new();

    assert_eq!(None, provider.profile);
    assert_eq!(None, provider.token);
    assert_eq!(None, provider.region);
    assert_eq!("default", provider.profile_name());
}

#[test]
fn provider_setters_chain() {
    let mut provider = AssumeRoleWithMFATokenProvider::new();

    provider
        .set_profile(Some("dev".to_string()))
        .set_token(Some("123456".to_string()))
        .set_region(Some("eu-west-1".to_string()));

    assert_eq!(Some("dev".to_string()), provider.profile);
    assert_eq!(Some("123456".to_string()), provider.token);
    assert_eq!(Some("eu-west-1".to_string()), provider.region);
    assert_eq!("dev", provider.profile_name());

    provider.set_profile(None).set_token(None);

    assert_eq!(None, provider.profile);
    assert_eq!(None, provider.token);
    assert_eq!(Some("eu-west-1".to_string()), provider.region);
}

#[test]
fn region_is_chosen_then_discovered_then_fallback() {
    let chosen = Some("eu-west-1".to_string());
    let discovered = Some("ap-south-1".to_string());

    assert_eq!("eu-west-1", choose_region(&chosen, &discovered));
    assert_eq!("eu-west-1", choose_region(&chosen, &None));
    assert_eq!("ap-south-1", choose_region(&None, &discovered));
    assert_eq!("us-east-1", choose_region(&None, &None));
}

#[test]
fn resolution_starts_by_loading_profiles() {
    let mut provider = AssumeRoleWithMFATokenProvider::new();
    provider.set_profile(Some("dev".to_string()));

    let (state, action) = provider.step(MfaState::Idle, MfaEvent::Started);

    assert!(matches!(state, MfaState::LoadingProfiles));
    match action {
        MfaAction::LoadProfiles { profile_name } => assert_eq!("dev", profile_name),
        other => panic!("unexpected action {:?}", other),
    }
}

#[test]
fn supplied_token_is_used_verbatim_without_prompt() {
    let mut provider = AssumeRoleWithMFATokenProvider::new();
    provider
        .set_profile(Some("dev".to_string()))
        .set_token(Some(" 123456 ".to_string()));

    let (state, action) = provider.step(
        MfaState::LoadingProfiles,
        MfaEvent::ProfilesLoaded {
            profiles: two_profiles(),
            region: Some("eu-west-1".to_string()),
        },
    );

    assert!(matches!(state, MfaState::AwaitingRole));
    let call = expect_call(action);
    assert_eq!(" 123456 ", call.token_code);
    assert_eq!("arn:aws:iam::1:role/dev", call.role_arn);
    assert_eq!("arn:aws:iam::1:mfa/me", call.serial_number);
    assert_eq!("envfmt", call.role_session_name);
    assert_eq!("eu-west-1", call.region);
    assert_eq!("AKIABASE", call.credentials.access_key_id);
    assert_eq!("basesecret", call.credentials.secret_access_key);
    assert_eq!(None, call.credentials.session_token);
    assert_eq!("assumed-role-credentials", call.credentials.provider_name);
}

#[test]
fn missing_token_is_prompted_for_and_trimmed() {
    let mut provider = AssumeRoleWithMFATokenProvider::new();
    provider.set_profile(Some("dev".to_string()));

    let (state, action) = provider.step(
        MfaState::LoadingProfiles,
        MfaEvent::ProfilesLoaded {
            profiles: two_profiles(),
            region: None,
        },
    );

    assert!(matches!(action, MfaAction::PromptToken));
    assert!(matches!(state, MfaState::AwaitingToken { .. }));

    let (state, action) = provider.step(state, MfaEvent::TokenRead("  123456 \n".to_string()));

    assert!(matches!(state, MfaState::AwaitingRole));
    let call = expect_call(action);
    assert_eq!("123456", call.token_code);
    assert_eq!("us-east-1", call.region);
    assert_eq!("arn:aws:iam::1:role/dev", call.role_arn);
    assert_eq!("AKIABASE", call.credentials.access_key_id);
}

#[test]
fn chosen_region_goes_before_discovered_region() {
    let mut provider = AssumeRoleWithMFATokenProvider::new();
    provider
        .set_profile(Some("dev".to_string()))
        .set_token(Some("123456".to_string()))
        .set_region(Some("ca-central-1".to_string()));

    let (_, action) = provider.on_profiles(&two_profiles(), &Some("eu-west-1".to_string()));

    assert_eq!("ca-central-1", expect_call(action).region);
}

#[test]
fn default_profile_is_resolved_when_none_is_chosen() {
    let set = profile_set(&[(
        "default",
        &[
            ("role_arn", "arn:role/default"),
            ("mfa_serial", "arn:mfa/default"),
            ("aws_access_key_id", "AKIADEFAULT"),
            ("aws_secret_access_key", "defaultsecret"),
        ],
    )]);
    let mut provider = AssumeRoleWithMFATokenProvider::new();
    provider.set_token(Some("123456".to_string()));

    let (_, action) = provider.on_profiles(&set, &None);

    assert_eq!("arn:role/default", expect_call(action).role_arn);
}

#[test]
fn unresolved_profile_fails_before_any_remote_call() {
    let mut provider = AssumeRoleWithMFATokenProvider::new();
    provider.set_profile(Some("absent".to_string()));

    let (state, action) = provider.step(
        MfaState::LoadingProfiles,
        MfaEvent::ProfilesLoaded {
            profiles: two_profiles(),
            region: None,
        },
    );

    assert!(matches!(state, MfaState::Finished));
    match expect_failure(action) {
        MfaError::Unresolved(error) => assert_eq!(ResolveError::ProfileNotFound, error),
        other => panic!("unexpected error {:?}", other),
    }
}

#[test]
fn profile_store_failure_fails() {
    let provider = AssumeRoleWithMFATokenProvider::new();

    let (state, action) = provider.step(
        MfaState::LoadingProfiles,
        MfaEvent::ProfilesFailed("unreadable".to_string()),
    );

    assert!(matches!(state, MfaState::Finished));
    match expect_failure(action) {
        MfaError::ProfilesNotLoaded(reason) => assert_eq!("unreadable", reason),
        other => panic!("unexpected error {:?}", other),
    }
}

#[test]
fn prompt_failure_fails() {
    let mut provider = AssumeRoleWithMFATokenProvider::new();
    provider.set_profile(Some("dev".to_string()));
    let (state, _) = provider.on_profiles(&two_profiles(), &None);

    let (state, action) = provider.step(state, MfaEvent::TokenFailed("stdin closed".to_string()));

    assert!(matches!(state, MfaState::Finished));
    match expect_failure(action) {
        MfaError::PromptFailed(reason) => assert_eq!("stdin closed", reason),
        other => panic!("unexpected error {:?}", other),
    }
}

#[test]
fn issued_credentials_are_provided() {
    let provider = AssumeRoleWithMFATokenProvider::new();

    let (state, action) = provider.step(
        MfaState::AwaitingRole,
        MfaEvent::RoleAssumed(Some(IssuedCredentials {
            access_key_id: Some("ASIATEMP".to_string()),
            secret_access_key: Some("tempsecret".to_string()),
            session_token: Some("sessiontoken".to_string()),
        })),
    );

    assert!(matches!(state, MfaState::Finished));
    match action {
        MfaAction::Provide(credentials) => {
            assert_eq!("ASIATEMP", credentials.access_key_id);
            assert_eq!("tempsecret", credentials.secret_access_key);
            assert_eq!(Some("sessiontoken".to_string()), credentials.session_token);
            assert_eq!("AssumeRoleWithMFAToken", credentials.provider_name);
        }
        other => panic!("unexpected action {:?}", other),
    }
}

#[test]
fn issued_credentials_may_lack_a_session_token() {
    let (_, action) = AssumeRoleWithMFATokenProvider::on_response(Some(IssuedCredentials {
        access_key_id: Some("ASIATEMP".to_string()),
        secret_access_key: Some("tempsecret".to_string()),
        session_token: None,
    }));

    match action {
        MfaAction::Provide(credentials) => assert_eq!(None, credentials.session_token),
        other => panic!("unexpected action {:?}", other),
    }
}

#[test]
fn response_without_credentials_is_malformed() {
    let provider = AssumeRoleWithMFATokenProvider::new();

    let (state, action) = provider.step(MfaState::AwaitingRole, MfaEvent::RoleAssumed(None));

    assert!(matches!(state, MfaState::Finished));
    assert!(matches!(
        expect_failure(action),
        MfaError::MalformedResponse
    ));
}

#[test]
fn response_with_partial_credentials_is_malformed() {
    let (_, no_key) = AssumeRoleWithMFATokenProvider::on_response(Some(IssuedCredentials {
        access_key_id: None,
        secret_access_key: Some("tempsecret".to_string()),
        session_token: Some("sessiontoken".to_string()),
    }));
    let (_, no_secret) = AssumeRoleWithMFATokenProvider::on_response(Some(IssuedCredentials {
        access_key_id: Some("ASIATEMP".to_string()),
        secret_access_key: None,
        session_token: Some("sessiontoken".to_string()),
    }));

    assert!(matches!(
        expect_failure(no_key),
        MfaError::MalformedResponse
    ));
    assert!(matches!(
        expect_failure(no_secret),
        MfaError::MalformedResponse
    ));
}

#[test]
fn rejected_exchange_fails() {
    let provider = AssumeRoleWithMFATokenProvider::new();

    let (state, action) = provider.step(
        MfaState::AwaitingRole,
        MfaEvent::RoleRefused("AccessDenied".to_string()),
    );

    assert!(matches!(state, MfaState::Finished));
    match expect_failure(action) {
        MfaError::ExchangeFailed(reason) => assert_eq!("AccessDenied", reason),
        other => panic!("unexpected error {:?}", other),
    }
}

#[test]
fn event_out_of_turn_fails() {
    let provider = AssumeRoleWithMFATokenProvider::new();

    let (state, action) = provider.step(MfaState::Idle, MfaEvent::TokenRead("1".to_string()));
    assert!(matches!(state, MfaState::Finished));
    assert!(matches!(expect_failure(action), MfaError::OutOfTurn));

    let (state, action) = provider.step(MfaState::Finished, MfaEvent::Started);
    assert!(matches!(state, MfaState::Finished));
    assert!(matches!(expect_failure(action), MfaError::OutOfTurn));
}

#[test]
fn mfa_errors_have_messages() {
    assert_eq!(
        "unreadable",
        MfaError::ProfilesNotLoaded("unreadable".to_string()).message()
    );
    assert_eq!(
        "Failed to find a role to assume in selected profile",
        MfaError::Unresolved(ResolveError::RoleArnMissing).message()
    );
    assert_eq!(
        "stdin closed",
        MfaError::PromptFailed("stdin closed".to_string()).message()
    );
    assert_eq!(
        "AccessDenied",
        MfaError::ExchangeFailed("AccessDenied".to_string()).message()
    );
    assert_eq!(
        "Successfully assume role, but not credentials were returned",
        MfaError::MalformedResponse.message()
    );
    assert_eq!(
        "The credential provider was driven out of turn",
        MfaError::OutOfTurn.message()
    );
}
