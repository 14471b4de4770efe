//! Rate-limited write-back of a bag of parameters, one at a time and in the
//! order of the bag. The caller performs each write and each pause and
//! hands back what came of it; a write that fails does not stop the others,
//! and is not tried again. The pause is the same after every write.

use crate::params::{text_of, ParamBag, ParamBagView};
use vstd::prelude::*;
use vstd::string::*;

verus! {

/// What `str::to_lowercase` returns for the text `s`.
pub uninterp spec fn lowercase(s: Seq<char>) -> Seq<char>;

/// Lower-cases a text with `str::to_lowercase`; the result is the one the
/// name `lowercase` stands for.
#[verifier::external_body]
fn to_lower(s: &str) -> (r: String)
    ensures
        r@ == lowercase(s@),
{
    s.to_lowercase()
}

/// The milliseconds to wait after each write.
pub const PAUSE_MILLIS: u64 = 200;

/// The remote path of the parameter `key` under `prefix`: the prefix, a
/// `/`, and the key in lower case. This holds of every prefix: nothing is
/// taken from a prefix that ends in `/`, so under the root prefix `/`, which
/// is what a write-back without a prefix is rooted to, the path begins with
/// `//`.
pub open spec fn remote_path(prefix: Seq<char>, key: Seq<char>) -> Seq<char> {
    prefix + seq!['/'] + lowercase(key)
}

/// A write as mathematical values.
pub struct PutRequestView {
    pub name: Seq<char>,
    pub value: Seq<char>,
    pub overwrite: bool,
}

/// One write of a plain-text parameter: its remote path, its value, and
/// whether a value that is already there may be replaced.
#[derive(Debug)]
pub struct PutRequest {
    pub name: String,
    pub value: String,
    pub overwrite: bool,
}

impl View for PutRequest {
    type V = PutRequestView;

    open spec fn view(&self) -> PutRequestView {
        PutRequestView { name: self.name@, value: self.value@, overwrite: self.overwrite }
    }
}

/// The writes of `v` as mathematical values, in the same order.
pub open spec fn request_views(v: Seq<PutRequest>) -> Seq<PutRequestView> {
    Seq::new(v.len(), |i: int| v[i]@)
}

/// What came of one write: the remote path, and the reason if it failed.
#[derive(Debug)]
pub struct WriteOutcome {
    pub path: String,
    pub failure: Option<String>,
}

impl View for WriteOutcome {
    type V = (Seq<char>, Option<Seq<char>>);

    open spec fn view(&self) -> (Seq<char>, Option<Seq<char>>) {
        (self.path@, text_of(self.failure))
    }
}

/// The outcomes of `v` as mathematical values, in the same order.
pub open spec fn outcome_views(v: Seq<WriteOutcome>) -> Seq<(Seq<char>, Option<Seq<char>>)> {
    Seq::new(v.len(), |i: int| v[i]@)
}

/// The line that reports an outcome.
pub open spec fn report_line(outcome: (Seq<char>, Option<Seq<char>>)) -> Seq<char> {
    match outcome.1 {
        None => "Wrote "@ + outcome.0,
        Some(reason) => "Failed to write "@ + outcome.0 + " due to "@ + reason,
    }
}

impl WriteOutcome {
    /// The line that reports this outcome.
    pub fn report(&self) -> (r: String)
        ensures
            r@ == report_line(self@),
    {
        match &self.failure {
            None => String::from_str("Wrote ").concat(self.path.as_str()),
            Some(reason) => String::from_str("Failed to write ").concat(
                self.path.as_str(),
            ).concat(" due to ").concat(reason.as_str()),
        }
    }
}

/// The writes that put the parameters `params` under `prefix`: one for each
/// parameter, in order.
pub open spec fn planned(bag: ParamBagView, overwrite: bool) -> Seq<PutRequestView> {
    Seq::new(
        bag.params.len(),
        |i: int|
            PutRequestView {
                name: remote_path(bag.prefix, bag.params[i].0),
                value: bag.params[i].1,
                overwrite,
            },
    )
}

/// Every write planned for a bag with a rooted prefix goes to a rooted path.
pub proof fn planned_paths_are_rooted(bag: ParamBagView, overwrite: bool, i: int)
    requires
        bag.is_rooted(),
        0 <= i < bag.params.len(),
    ensures
        planned(bag, overwrite)[i].name.len() > 0,
        planned(bag, overwrite)[i].name[0] == '/',
{
}

/// Writes bags of parameters back to the remote store.
#[derive(Debug)]
pub struct Writer {
    pub force: bool,
}

impl Writer {
    /// A writer that replaces values that are already there only when
    /// `force` is set.
    pub fn new(force: bool) -> (r: Writer)
        ensures
            r.force == force,
    {
        Writer { force }
    }

    /// The path of `name` under `prefix`: the two with a `/` between them.
    pub fn join(prefix: &str, name: &str) -> (r: String)
        ensures
            r@ == prefix@ + seq!['/'] + name@,
    {
        proof {
            reveal_strlit("/");
        }
        let r = prefix.to_owned().concat("/").concat(name);
        assert(r@ =~= prefix@ + seq!['/'] + name@);
        r
    }

    /// The remote path of the parameter `key` under `prefix`.
    pub fn path(prefix: &str, key: &str) -> (r: String)
        ensures
            r@ == remote_path(prefix@, key@),
    {
        let lower = to_lower(key);
        Self::join(prefix, lower.as_str())
    }

    /// The writes that put the parameters of `bag` under its prefix: one for
    /// each parameter, in the order of the bag.
    pub fn plan(&self, bag: &ParamBag) -> (r: Vec<PutRequest>)
        ensures
            request_views(r@) == planned(bag@, self.force),
    {
        let mut requests: Vec<PutRequest> = Vec::new();
        let mut i: usize = 0;
        while i < bag.params.len()
            invariant
                i <= bag.params.len(),
                request_views(requests@) =~= planned(bag@, self.force).take(i as int),
            decreases bag.params.len() - i,
        {
            let param = &bag.params[i];
            let ghost held = requests@;
            let request = PutRequest {
                name: Self::path(bag.prefix.as_str(), param.key.as_str()),
                value: param.value.clone(),
                overwrite: self.force,
            };
            assert(request@ == planned(bag@, self.force)[i as int]);
            requests.push(request);
            assert(request_views(requests@) =~= request_views(held).push(
                planned(bag@, self.force)[i as int],
            ));
            i = i + 1;
        }
        assert(planned(bag@, self.force).take(i as int) =~= planned(bag@, self.force));
        requests
    }
}

/// What came back from the work that a run asked for.
#[derive(Debug)]
pub enum WriteEvent {
    /// The write was accepted.
    Written,
    /// The write was rejected, for this reason.
    Rejected(String),
    /// The pause is over.
    Elapsed,
}

/// A `WriteEvent` as mathematical values.
pub enum WriteEventView {
    Written,
    Rejected(Seq<char>),
    Elapsed,
}

impl View for WriteEvent {
    type V = WriteEventView;

    open spec fn view(&self) -> WriteEventView {
        match *self {
            WriteEvent::Written => WriteEventView::Written,
            WriteEvent::Rejected(reason) => WriteEventView::Rejected(reason@),
            WriteEvent::Elapsed => WriteEventView::Elapsed,
        }
    }
}

/// What a run asks its caller to do next.
#[derive(Debug)]
pub enum WriteAction {
    /// Perform this write.
    Put(PutRequest),
    /// Report the last outcome with this line, then wait this long.
    Pause { report: String, millis: u64 },
    /// Nothing is left to do.
    Finish,
}

/// A `WriteAction` as mathematical values.
pub enum WriteActionView {
    Put(PutRequestView),
    Pause { report: Seq<char>, millis: u64 },
    Finish,
}

impl View for WriteAction {
    type V = WriteActionView;

    open spec fn view(&self) -> WriteActionView {
        match *self {
            WriteAction::Put(request) => WriteActionView::Put(request@),
            WriteAction::Pause { report, millis } => WriteActionView::Pause {
                report: report@,
                millis,
            },
            WriteAction::Finish => WriteActionView::Finish,
        }
    }
}

/// A write-back in progress. The write underway, or due after the pause, is
/// the one of `requests` that no outcome has been recorded for yet.
#[derive(Debug)]
pub enum WriteState {
    /// A write is underway.
    Writing { requests: Vec<PutRequest>, outcomes: Vec<WriteOutcome> },
    /// The pause after a write is underway.
    Pausing { requests: Vec<PutRequest>, outcomes: Vec<WriteOutcome> },
    /// Every write has been tried.
    Done { outcomes: Vec<WriteOutcome> },
}

/// A `WriteState` as mathematical values.
pub enum WriteStateView {
    Writing { requests: Seq<PutRequestView>, outcomes: Seq<(Seq<char>, Option<Seq<char>>)> },
    Pausing { requests: Seq<PutRequestView>, outcomes: Seq<(Seq<char>, Option<Seq<char>>)> },
    Done { outcomes: Seq<(Seq<char>, Option<Seq<char>>)> },
}

impl View for WriteState {
    type V = WriteStateView;

    open spec fn view(&self) -> WriteStateView {
        match *self {
            WriteState::Writing { requests, outcomes } => WriteStateView::Writing {
                requests: request_views(requests@),
                outcomes: outcome_views(outcomes@),
            },
            WriteState::Pausing { requests, outcomes } => WriteStateView::Pausing {
                requests: request_views(requests@),
                outcomes: outcome_views(outcomes@),
            },
            WriteState::Done { outcomes } => WriteStateView::Done {
                outcomes: outcome_views(outcomes@),
            },
        }
    }
}

impl WriteStateView {
    /// The outcomes recorded so far.
    pub open spec fn outcomes(self) -> Seq<(Seq<char>, Option<Seq<char>>)> {
        match self {
            WriteStateView::Writing { outcomes, .. } => outcomes,
            WriteStateView::Pausing { outcomes, .. } => outcomes,
            WriteStateView::Done { outcomes } => outcomes,
        }
    }

    /// The state and the action that turn to the next of `requests`, or end
    /// the run when an outcome has been recorded for each.
    pub open spec fn turned_to_next(
        requests: Seq<PutRequestView>,
        outcomes: Seq<(Seq<char>, Option<Seq<char>>)>,
    ) -> (WriteStateView, WriteActionView) {
        if outcomes.len() < requests.len() {
            (
                WriteStateView::Writing { requests, outcomes },
                WriteActionView::Put(requests[outcomes.len() as int]),
            )
        } else {
            (WriteStateView::Done { outcomes }, WriteActionView::Finish)
        }
    }

    /// The state and the action that record `failure` as the outcome of the
    /// write underway and start the pause after it.
    pub open spec fn recorded(
        requests: Seq<PutRequestView>,
        outcomes: Seq<(Seq<char>, Option<Seq<char>>)>,
        failure: Option<Seq<char>>,
    ) -> (WriteStateView, WriteActionView) {
        let outcome = (requests[outcomes.len() as int].name, failure);
        (
            WriteStateView::Pausing { requests, outcomes: outcomes.push(outcome) },
            WriteActionView::Pause { report: report_line(outcome), millis: PAUSE_MILLIS },
        )
    }

    /// The state and the action that follow the arrival of `event`. The
    /// result of a write, accepted or rejected, is recorded under the path
    /// of that write and followed by the pause; the end of the pause turns
    /// to the next write. An event that is not awaited ends the run with
    /// the outcomes recorded so far.
    pub open spec fn advanced(self, event: WriteEventView) -> (WriteStateView, WriteActionView) {
        match (self, event) {
            (WriteStateView::Writing { requests, outcomes }, WriteEventView::Written)
                if outcomes.len() < requests.len() => Self::recorded(requests, outcomes, None),
            (WriteStateView::Writing { requests, outcomes }, WriteEventView::Rejected(reason))
                if outcomes.len() < requests.len() => Self::recorded(
                requests,
                outcomes,
                Some(reason),
            ),
            (WriteStateView::Pausing { requests, outcomes }, WriteEventView::Elapsed) => {
                Self::turned_to_next(requests, outcomes)
            },
            _ => (WriteStateView::Done { outcomes: self.outcomes() }, WriteActionView::Finish),
        }
    }
}

/// A copy of a write.
fn copy_of(request: &PutRequest) -> (r: PutRequest)
    ensures
        r@ == request@,
{
    PutRequest {
        name: request.name.clone(),
        value: request.value.clone(),
        overwrite: request.overwrite,
    }
}

impl WriteState {
    /// Turns to the next write, or ends the run.
    fn turn_to_next(requests: Vec<PutRequest>, outcomes: Vec<WriteOutcome>) -> (r: (
        WriteState,
        WriteAction,
    ))
        ensures
            (r.0@, r.1@) == WriteStateView::turned_to_next(
                request_views(requests@),
                outcome_views(outcomes@),
            ),
    {
        if outcomes.len() < requests.len() {
            let request = copy_of(&requests[outcomes.len()]);
            (WriteState::Writing { requests, outcomes }, WriteAction::Put(request))
        } else {
            (WriteState::Done { outcomes }, WriteAction::Finish)
        }
    }

    /// Records the outcome of the write underway and starts the pause.
    fn record(requests: Vec<PutRequest>, outcomes: Vec<WriteOutcome>, failure: Option<String>) -> (r:
        (WriteState, WriteAction))
        requires
            outcomes.len() < requests.len(),
        ensures
            (r.0@, r.1@) == WriteStateView::recorded(
                request_views(requests@),
                outcome_views(outcomes@),
                text_of(failure),
            ),
    {
        let outcome = WriteOutcome { path: requests[outcomes.len()].name.clone(), failure };
        let report = outcome.report();
        let ghost held = outcomes@;
        let mut outcomes = outcomes;
        outcomes.push(outcome);
        assert(outcome_views(outcomes@) =~= outcome_views(held).push(outcome@));
        (
            WriteState::Pausing { requests, outcomes },
            WriteAction::Pause { report, millis: PAUSE_MILLIS },
        )
    }

    /// The outcomes recorded so far, in the order of the writes.
    pub fn into_outcomes(self) -> (r: Vec<WriteOutcome>)
        ensures
            outcome_views(r@) == self@.outcomes(),
    {
        match self {
            WriteState::Writing { requests: _, outcomes } => outcomes,
            WriteState::Pausing { requests: _, outcomes } => outcomes,
            WriteState::Done { outcomes } => outcomes,
        }
    }

    /// One step of a write-back: takes what came of the work asked for last,
    /// and says what to do next.
    pub fn advance(self, event: WriteEvent) -> (r: (WriteState, WriteAction))
        ensures
            (r.0@, r.1@) == self@.advanced(event@),
    {
        match (self, event) {
            (WriteState::Writing { requests, outcomes }, WriteEvent::Written) => {
                if outcomes.len() < requests.len() {
                    Self::record(requests, outcomes, None)
                } else {
                    (WriteState::Done { outcomes }, WriteAction::Finish)
                }
            },
            (WriteState::Writing { requests, outcomes }, WriteEvent::Rejected(reason)) => {
                if outcomes.len() < requests.len() {
                    Self::record(requests, outcomes, Some(reason))
                } else {
                    (WriteState::Done { outcomes }, WriteAction::Finish)
                }
            },
            (WriteState::Pausing { requests, outcomes }, WriteEvent::Elapsed) => {
                Self::turn_to_next(requests, outcomes)
            },
            (state, _) => (WriteState::Done { outcomes: state.into_outcomes() }, WriteAction::Finish),
        }
    }
}

impl Writer {
    /// Starts the write-back of `bag`: plans one write for each of its
    /// parameters and turns to the first.
    pub fn begin(&self, bag: &ParamBag) -> (r: (WriteState, WriteAction))
        ensures
            (r.0@, r.1@) == WriteStateView::turned_to_next(
                planned(bag@, self.force),
                Seq::empty(),
            ),
    {
        let requests = self.plan(bag);
        let outcomes: Vec<WriteOutcome> = Vec::new();
        assert(outcome_views(outcomes@) =~= Seq::empty());
        WriteState::turn_to_next(requests, outcomes)
    }
}

/// The event that reports the result of a write: accepted, or rejected
/// for a reason.
pub open spec fn result_event(failure: Option<Seq<char>>) -> WriteEventView {
    match failure {
        None => WriteEventView::Written,
        Some(reason) => WriteEventView::Rejected(reason),
    }
}

/// The outcomes of the writes `requests` from the one at `from` on, given
/// the result of each: the path of the write with its result.
pub open spec fn outcomes_of(
    requests: Seq<PutRequestView>,
    from: int,
    results: Seq<Option<Seq<char>>>,
) -> Seq<(Seq<char>, Option<Seq<char>>)> {
    Seq::new(results.len(), |i: int| (requests[from + i].name, results[i]))
}

impl WriteStateView {
    /// The state after the results `results` of the next writes have
    /// arrived, each followed by the end of its pause.
    pub open spec fn after_results(self, results: Seq<Option<Seq<char>>>) -> WriteStateView
        decreases results.len(),
    {
        if results.len() == 0 {
            self
        } else {
            self.advanced(result_event(results[0])).0.advanced(
                WriteEventView::Elapsed,
            ).0.after_results(results.drop_first())
        }
    }
}

/// Whatever the results of the writes tried so far, the run has recorded
/// one outcome for each of them, under its path and in order, and has
/// turned to the write that follows them: a write that fails neither stops
/// the run nor skips a later write.
pub proof fn write_back_tries_every_item(
    requests: Seq<PutRequestView>,
    outcomes: Seq<(Seq<char>, Option<Seq<char>>)>,
    results: Seq<Option<Seq<char>>>,
)
    requires
        outcomes.len() + results.len() <= requests.len(),
    ensures
        WriteStateView::turned_to_next(requests, outcomes).0.after_results(results)
            == WriteStateView::turned_to_next(
            requests,
            outcomes + outcomes_of(requests, outcomes.len() as int, results),
        ).0,
    decreases results.len(),
{
    let start = WriteStateView::turned_to_next(requests, outcomes).0;
    let from = outcomes.len() as int;
    if results.len() == 0 {
        assert(outcomes + outcomes_of(requests, from, results) =~= outcomes);
    } else {
        let first = (requests[from].name, results[0]);
        let rest = results.drop_first();
        let paused = start.advanced(result_event(results[0])).0;
        assert(paused == (WriteStateView::Pausing { requests, outcomes: outcomes.push(first) }));
        assert(paused.advanced(WriteEventView::Elapsed).0 == WriteStateView::turned_to_next(
            requests,
            outcomes.push(first),
        ).0);
        write_back_tries_every_item(requests, outcomes.push(first), rest);
        assert(outcomes.push(first) + outcomes_of(requests, from + 1, rest) =~= outcomes
            + outcomes_of(requests, from, results));
    }
}

/// Once the result of every write has arrived, the run is done and holds
/// one outcome for each parameter of the bag, in the order of the bag: the
/// parameter's remote path with the result of its write.
pub proof fn write_back_reports_every_item(
    bag: ParamBagView,
    overwrite: bool,
    results: Seq<Option<Seq<char>>>,
)
    requires
        results.len() == bag.params.len(),
    ensures
        WriteStateView::turned_to_next(planned(bag, overwrite), Seq::empty()).0.after_results(
            results,
        ) == (WriteStateView::Done {
            outcomes: Seq::new(
                bag.params.len(),
                |i: int| (remote_path(bag.prefix, bag.params[i].0), results[i]),
            ),
        }),
{
    let requests = planned(bag, overwrite);
    write_back_tries_every_item(requests, Seq::empty(), results);
    assert(Seq::<(Seq<char>, Option<Seq<char>>)>::empty() + outcomes_of(requests, 0, results)
        =~= Seq::new(
        bag.params.len(),
        |i: int| (remote_path(bag.prefix, bag.params[i].0), results[i]),
    ));
}

} // verus!
