//! The course of one exchange: what is to be done next to send a request, log
//! it, and hand back the response.
//!
//! Building, executing and writing happen outside; [`next`] is told how each
//! step went and says which one comes next.
use vstd::prelude::*;

use crate::log::{REQUEST_LOG_PATH, RESPONSE_LOG_PATH};

verus! {

/// The body of the response that is handed back.
#[derive(Debug, Clone, Copy, PartialEq, Eq, Structural)]
pub enum Delivery {
    /// As it arrives; nobody has read it yet.
    Streamed,
    /// Rebuilt over the octets that were collected for the log.
    Buffered,
    /// Rebuilt without a body, because the body broke off while it was
    /// collected.
    Emptied,
}

/// What the caller gets.
#[derive(Debug, Clone, Copy, PartialEq, Eq, Structural)]
pub enum Outcome {
    Response(Delivery),
    Error,
}

/// What is to be done next.
#[derive(Debug, Clone, Copy, PartialEq, Eq, Structural)]
pub enum Stage {
    /// Build the request.
    Build,
    /// Write the request to the request log.
    LogRequest,
    /// Execute the request.
    Execute,
    /// Read the body of the response to its end.
    CollectBody,
    /// Write the response to the response log.
    LogResponse,
    /// Write the failure to the response log.
    LogFailure,
    /// Nothing; the caller gets the outcome.
    Done(Outcome),
}

/// How a step went. `logging` says whether the logs are on at that moment,
/// `written` whether an entry reached its log.
#[derive(Debug, Clone, Copy, PartialEq, Eq, Structural)]
pub enum Event {
    Built { logging: bool },
    BuildRefused,
    RequestLogged { written: bool },
    Responded { logging: bool },
    ExecuteFailed { logging: bool },
    BodyCollected { complete: bool },
    ResponseLogged { written: bool },
    FailureLogged { written: bool },
}

/// The stage after an event, and none for an event that does not belong to the
/// stage.
pub open spec fn successor(stage: Stage, event: Event) -> Option<Stage> {
    match (stage, event) {
        (Stage::Build, Event::Built { logging }) => Some(
            if logging {
                Stage::LogRequest
            } else {
                Stage::Execute
            },
        ),
        (Stage::Build, Event::BuildRefused) => Some(Stage::Done(Outcome::Error)),
        (Stage::LogRequest, Event::RequestLogged { .. }) => Some(Stage::Execute),
        (Stage::Execute, Event::Responded { logging }) => Some(
            if logging {
                Stage::CollectBody
            } else {
                Stage::Done(Outcome::Response(Delivery::Streamed))
            },
        ),
        (Stage::Execute, Event::ExecuteFailed { logging }) => Some(
            if logging {
                Stage::LogFailure
            } else {
                Stage::Done(Outcome::Error)
            },
        ),
        (Stage::CollectBody, Event::BodyCollected { complete }) => Some(
            if complete {
                Stage::LogResponse
            } else {
                Stage::Done(Outcome::Response(Delivery::Emptied))
            },
        ),
        (Stage::LogResponse, Event::ResponseLogged { .. }) => Some(
            Stage::Done(Outcome::Response(Delivery::Buffered)),
        ),
        (Stage::LogFailure, Event::FailureLogged { .. }) => Some(Stage::Done(Outcome::Error)),
        _ => None,
    }
}

/// Says what comes after `event` at `stage`.
pub fn next(stage: Stage, event: Event) -> (r: Option<Stage>)
    ensures
        r == successor(stage, event),
{
    match stage {
        Stage::Build => match event {
            Event::Built { logging } => {
                if logging {
                    Some(Stage::LogRequest)
                } else {
                    Some(Stage::Execute)
                }
            },
            Event::BuildRefused => Some(Stage::Done(Outcome::Error)),
            _ => None,
        },
        Stage::LogRequest => match event {
            Event::RequestLogged { written: _ } => Some(Stage::Execute),
            _ => None,
        },
        Stage::Execute => match event {
            Event::Responded { logging } => {
                if logging {
                    Some(Stage::CollectBody)
                } else {
                    Some(Stage::Done(Outcome::Response(Delivery::Streamed)))
                }
            },
            Event::ExecuteFailed { logging } => {
                if logging {
                    Some(Stage::LogFailure)
                } else {
                    Some(Stage::Done(Outcome::Error))
                }
            },
            _ => None,
        },
        Stage::CollectBody => match event {
            Event::BodyCollected { complete } => {
                if complete {
                    Some(Stage::LogResponse)
                } else {
                    Some(Stage::Done(Outcome::Response(Delivery::Emptied)))
                }
            },
            _ => None,
        },
        Stage::LogResponse => match event {
            Event::ResponseLogged { written: _ } => Some(
                Stage::Done(Outcome::Response(Delivery::Buffered)),
            ),
            _ => None,
        },
        Stage::LogFailure => match event {
            Event::FailureLogged { written: _ } => Some(Stage::Done(Outcome::Error)),
            _ => None,
        },
        Stage::Done(_) => None,
    }
}

/// The log that is written to at a stage, if one is: requests have theirs, and
/// responses share one with the failures to get one.
pub fn log_path(stage: Stage) -> (r: Option<&'static str>)
    ensures
        match stage {
            Stage::LogRequest => r matches Some(path) && path@ == REQUEST_LOG_PATH@,
            Stage::LogResponse | Stage::LogFailure => r matches Some(path) && path@
                == RESPONSE_LOG_PATH@,
            _ => r is None,
        },
{
    match stage {
        Stage::LogRequest => Some(REQUEST_LOG_PATH),
        Stage::LogResponse => Some(RESPONSE_LOG_PATH),
        Stage::LogFailure => Some(RESPONSE_LOG_PATH),
        _ => None,
    }
}

/// The octets to rebuild the response with, if it is rebuilt, where `collected`
/// was read of its body.
pub open spec fn rebuilt_octets(delivery: Delivery, collected: Seq<u8>) -> Option<Seq<u8>> {
    match delivery {
        Delivery::Streamed => None,
        Delivery::Buffered => Some(collected),
        Delivery::Emptied => Some(seq![]),
    }
}

/// The body to rebuild the response with, if it is rebuilt, from the octets
/// that were collected.
pub fn delivered_body(delivery: Delivery, collected: Vec<u8>) -> (r: Option<Vec<u8>>)
    ensures
        match r {
            Some(body) => rebuilt_octets(delivery, collected@) == Some(body@),
            None => rebuilt_octets(delivery, collected@) is None,
        },
{
    match delivery {
        Delivery::Streamed => None,
        Delivery::Buffered => Some(collected),
        Delivery::Emptied => {
            let nothing: Vec<u8> = Vec::new();
            assert(nothing@ =~= seq![]);
            Some(nothing)
        },
    }
}

/// The stage reached from `stage` by events one after the other, and none where
/// one of them does not belong.
pub open spec fn reached(stage: Stage, events: Seq<Event>) -> Option<Stage>
    decreases events.len(),
{
    if events.len() == 0 {
        Some(stage)
    } else {
        match reached(stage, events.drop_last()) {
            Some(before) => successor(before, events.last()),
            None => None,
        }
    }
}

/// The first `n` events lead to `stage`.
pub open spec fn passes(events: Seq<Event>, n: int, stage: Stage) -> bool {
    0 <= n <= events.len() && reached(Stage::Build, events.take(n)) == Some(stage)
}

/// An event that tells of logs that are on.
pub open spec fn tells_logging(event: Event) -> bool {
    match event {
        Event::Built { logging } => logging,
        Event::Responded { logging } => logging,
        Event::ExecuteFailed { logging } => logging,
        _ => false,
    }
}

/// The same event, except perhaps for whether an entry reached its log.
pub open spec fn alike_but_for_writing(a: Event, b: Event) -> bool {
    match (a, b) {
        (Event::RequestLogged { .. }, Event::RequestLogged { .. }) => true,
        (Event::ResponseLogged { .. }, Event::ResponseLogged { .. }) => true,
        (Event::FailureLogged { .. }, Event::FailureLogged { .. }) => true,
        _ => a == b,
    }
}

/// What building and executing a request came to: the request was refused, no
/// response came, or one came, with everything but its body in `head`.
pub ghost enum Attempt<H, E> {
    Refused(E),
    Failed(E),
    Answered { head: H, body: Seq<u8> },
}

/// The events tell of an attempt.
pub open spec fn tell_of<H, E>(events: Seq<Event>, attempt: Attempt<H, E>) -> bool {
    exists|i: int|
        0 <= i < events.len() && match attempt {
            Attempt::Refused(_) => (#[trigger] events[i]) is BuildRefused,
            Attempt::Failed(_) => events[i] is ExecuteFailed,
            Attempt::Answered { .. } => events[i] is Responded,
        }
}

/// The body of a response broke off while it was read for the log.
pub open spec fn breaks_off(events: Seq<Event>) -> bool {
    events.contains((Event::BodyCollected { complete: false }))
}

/// The octets that the caller reads of a response with the given body.
pub open spec fn received(delivery: Delivery, body: Seq<u8>) -> Seq<u8> {
    match rebuilt_octets(delivery, body) {
        Some(octets) => octets,
        None => body,
    }
}

/// What the caller gets at the end of an exchange: the response with the octets
/// that are read of it, or the error. None where outcome and attempt do not go
/// together.
pub open spec fn handed_back<H, E>(outcome: Outcome, attempt: Attempt<H, E>) -> Option<
    Result<(H, Seq<u8>), E>,
> {
    match (outcome, attempt) {
        (Outcome::Response(delivery), Attempt::Answered { head, body }) => Some(
            Ok((head, received(delivery, body))),
        ),
        (Outcome::Error, Attempt::Refused(error)) => Some(Err(error)),
        (Outcome::Error, Attempt::Failed(error)) => Some(Err(error)),
        _ => None,
    }
}

/// What building and executing the request give by themselves.
pub open spec fn plain_result<H, E>(attempt: Attempt<H, E>) -> Result<(H, Seq<u8>), E> {
    match attempt {
        Attempt::Refused(error) => Err(error),
        Attempt::Failed(error) => Err(error),
        Attempt::Answered { head, body } => Ok((head, body)),
    }
}

/// A stage at which something is written to a log, or read for one.
pub open spec fn is_log_stage(stage: Stage) -> bool {
    stage == Stage::LogRequest || stage == Stage::CollectBody || stage == Stage::LogResponse
        || stage == Stage::LogFailure
}

/// How far a stage is from the end.
pub open spec fn steps_left(stage: Stage) -> nat {
    match stage {
        Stage::Build => 5,
        Stage::LogRequest => 4,
        Stage::Execute => 3,
        Stage::CollectBody => 2,
        Stage::LogResponse => 1,
        Stage::LogFailure => 1,
        Stage::Done(_) => 0,
    }
}

/// Every event brings the exchange nearer to its end, so it ends after at most
/// five.
pub proof fn exchange_ends(stage: Stage, events: Seq<Event>)
    requires
        reached(stage, events) is Some,
    ensures
        steps_left(reached(stage, events).unwrap()) + events.len() <= steps_left(stage) <= 5,
    decreases events.len(),
{
    if events.len() > 0 {
        exchange_ends(stage, events.drop_last());
    }
}

/// An exchange never sticks: at every stage but the last there is an event that
/// leads on.
pub proof fn exchange_goes_on(stage: Stage)
    ensures
        (exists|event: Event| successor(stage, event) is Some) <==> !(stage is Done),
{
    assert(successor(Stage::Build, Event::BuildRefused) is Some);
    assert(successor(Stage::LogRequest, Event::RequestLogged { written: true }) is Some);
    assert(successor(Stage::Execute, Event::Responded { logging: true }) is Some);
    assert(successor(Stage::CollectBody, Event::BodyCollected { complete: true }) is Some);
    assert(successor(Stage::LogResponse, Event::ResponseLogged { written: true }) is Some);
    assert(successor(Stage::LogFailure, Event::FailureLogged { written: true }) is Some);
}

/// Whether an entry could be written makes no difference to the exchange.
pub proof fn failed_writes_change_nothing(stage: Stage, events: Seq<Event>, others: Seq<Event>)
    requires
        events.len() == others.len(),
        forall|i: int|
            0 <= i < events.len() ==> alike_but_for_writing(#[trigger] events[i], others[i]),
    ensures
        reached(stage, events) == reached(stage, others),
    decreases events.len(),
{
    if events.len() > 0 {
        assert(alike_but_for_writing(events[events.len() - 1], others[events.len() - 1]));
        failed_writes_change_nothing(stage, events.drop_last(), others.drop_last());
    }
}

/// While the logs are off no entry is written, no body is read for one, and a
/// response is handed back as it arrives.
pub proof fn silent_while_logging_is_off(events: Seq<Event>)
    requires
        reached(Stage::Build, events) is Some,
        forall|i: int| 0 <= i < events.len() ==> !tells_logging(#[trigger] events[i]),
    ensures
        !is_log_stage(reached(Stage::Build, events).unwrap()),
        reached(Stage::Build, events).unwrap() matches Stage::Done(Outcome::Response(delivery))
            ==> delivery == Delivery::Streamed,
    decreases events.len(),
{
    if events.len() > 0 {
        let last = events.last();
        assert(!tells_logging(events[events.len() - 1]));
        silent_while_logging_is_off(events.drop_last());
    }
}

/// The caller gets a response exactly where executing the request gave one;
/// logging turns neither a response into an error nor an error into a response.
pub proof fn outcome_is_that_of_executing(events: Seq<Event>)
    requires
        reached(Stage::Build, events) matches Some(Stage::Done(_)),
    ensures
        (reached(Stage::Build, events) matches Some(Stage::Done(Outcome::Response(_)))) <==> exists|
            i: int,
        |
            0 <= i < events.len() && (#[trigger] events[i]) is Responded,
{
    lemma_responded(events);
}

/// The caller gets an error exactly where the request was refused or no response
/// came, and then that error. Where a response came, the caller gets it with its
/// body, or without one where the body broke off while it was read for the log.
pub proof fn caller_gets_what_executing_gave<H, E>(events: Seq<Event>, attempt: Attempt<H, E>)
    requires
        reached(Stage::Build, events) matches Some(Stage::Done(_)),
        tell_of(events, attempt),
    ensures
        reached(Stage::Build, events) matches Some(Stage::Done(outcome)) && handed_back(
            outcome,
            attempt,
        ) == Some(
            match attempt {
                Attempt::Answered { head, body } if breaks_off(events) => Ok(
                    (head, Seq::<u8>::empty()),
                ),
                _ => plain_result(attempt),
            },
        ),
{
    lemma_responded(events);
    lemma_failed(events);
    lemma_broken(events);
    let i = choose|i: int|
        0 <= i < events.len() && match attempt {
            Attempt::Refused(_) => (#[trigger] events[i]) is BuildRefused,
            Attempt::Failed(_) => events[i] is ExecuteFailed,
            Attempt::Answered { .. } => events[i] is Responded,
        };
    if attempt is Answered {
        assert(events[i] is Responded);
    } else {
        assert(fails(events[i]));
    }
}

/// Whether the logs are on makes no difference to the caller: an exchange with
/// the logs on and one with the logs off, on the same attempt, hand back the same
/// response with the same body, or the same error, as long as the body can be
/// read to its end.
pub proof fn logging_changes_nothing<H, E>(
    logged: Seq<Event>,
    silent: Seq<Event>,
    attempt: Attempt<H, E>,
)
    requires
        reached(Stage::Build, logged) matches Some(Stage::Done(_)),
        reached(Stage::Build, silent) matches Some(Stage::Done(_)),
        tell_of(logged, attempt),
        tell_of(silent, attempt),
        forall|i: int| 0 <= i < silent.len() ==> !tells_logging(#[trigger] silent[i]),
        !breaks_off(logged),
    ensures
        reached(Stage::Build, logged) matches Some(Stage::Done(with_logs)) && (reached(
            Stage::Build,
            silent,
        ) matches Some(Stage::Done(without_logs)) && handed_back(with_logs, attempt)
            == handed_back(without_logs, attempt)),
{
    silent_while_logging_is_off(silent);
    lemma_broken(silent);
    caller_gets_what_executing_gave(logged, attempt);
    caller_gets_what_executing_gave(silent, attempt);
}

/// An event brings the exchange to an error, at once or once it is logged.
spec fn fails(event: Event) -> bool {
    event is BuildRefused || event is ExecuteFailed
}

proof fn lemma_failed(events: Seq<Event>)
    requires
        reached(Stage::Build, events) is Some,
    ensures
        (exists|i: int| 0 <= i < events.len() && #[trigger] fails(events[i])) ==> (reached(
            Stage::Build,
            events,
        ) == Some(Stage::LogFailure) || reached(Stage::Build, events) == Some(
            Stage::Done(Outcome::Error),
        )),
    decreases events.len(),
{
    if events.len() > 0 {
        let before = events.drop_last();
        lemma_failed(before);
        if exists|i: int| 0 <= i < events.len() && #[trigger] fails(events[i]) {
            let i = choose|i: int| 0 <= i < events.len() && #[trigger] fails(events[i]);
            if i < before.len() {
                assert(fails(before[i]));
            }
        }
    }
}

proof fn lemma_broken(events: Seq<Event>)
    requires
        reached(Stage::Build, events) is Some,
    ensures
        breaks_off(events) <==> reached(Stage::Build, events) == Some(
            Stage::Done(Outcome::Response(Delivery::Emptied)),
        ),
    decreases events.len(),
{
    if events.len() > 0 {
        let before = events.drop_last();
        let broken = Event::BodyCollected { complete: false };
        lemma_broken(before);
        assert(events =~= before.push(events.last()));
        if before.contains(broken) {
            let i = choose|i: int| 0 <= i < before.len() && before[i] == broken;
            assert(events[i] == broken);
        }
        if events.contains(broken) {
            let i = choose|i: int| 0 <= i < events.len() && events[i] == broken;
            if i < before.len() {
                assert(before[i] == broken);
            }
        }
        assert(events[events.len() - 1] == events.last());
    }
}

spec fn past_response(stage: Stage) -> bool {
    match stage {
        Stage::CollectBody => true,
        Stage::LogResponse => true,
        Stage::Done(Outcome::Response(_)) => true,
        _ => false,
    }
}

proof fn lemma_responded(events: Seq<Event>)
    requires
        reached(Stage::Build, events) is Some,
    ensures
        past_response(reached(Stage::Build, events).unwrap()) <==> exists|i: int|
            0 <= i < events.len() && (#[trigger] events[i]) is Responded,
    decreases events.len(),
{
    if events.len() > 0 {
        let before = events.drop_last();
        lemma_responded(before);
        if past_response(reached(Stage::Build, before).unwrap()) {
            let i = choose|i: int| 0 <= i < before.len() && (#[trigger] before[i]) is Responded;
            assert(events[i] is Responded);
        }
        if exists|i: int| 0 <= i < events.len() && (#[trigger] events[i]) is Responded {
            let i = choose|i: int| 0 <= i < events.len() && (#[trigger] events[i]) is Responded;
            if i < before.len() {
                assert(before[i] is Responded);
            }
        }
        assert(events[events.len() - 1] == events.last());
    }
}

/// A request is executed once, unless it could not be built; then it is not
/// executed at all.
pub proof fn executed_once(events: Seq<Event>)
    requires
        reached(Stage::Build, events) matches Some(Stage::Done(_)),
    ensures
        events.len() > 0,
        events[0] == Event::BuildRefused ==> forall|n: int| !#[trigger]
            passes(events, n, Stage::Execute),
        events[0] != Event::BuildRefused ==> exists|n: int| #[trigger]
            passes(events, n, Stage::Execute),
        forall|m: int, n: int| #[trigger]
            passes(events, m, Stage::Execute) && #[trigger] passes(events, n, Stage::Execute) ==> m
                == n,
{
    assert(events.len() > 0);
    let start = Seq::<Event>::empty();
    assert(events.take(0) == start);
    assert(events.take(1).drop_last() == start);
    assert(reached(Stage::Build, start) == Some(Stage::Build));
    assert(reached(Stage::Build, events.take(1)) == successor(Stage::Build, events[0]));
    lemma_prefix(events, 1);
    if events[0] == Event::BuildRefused {
        assert(events.len() == 1);
        assert forall|n: int| !#[trigger] passes(events, n, Stage::Execute) by {
            assert(n == 0 || n == 1 || !(0 <= n <= events.len()));
        }
    } else if reached(Stage::Build, events.take(1)) == Some(Stage::Execute) {
        assert(passes(events, 1, Stage::Execute));
    } else {
        assert(events.len() > 1) by {
            if events.len() == 1 {
                assert(events.take(1) == events);
            }
        }
        lemma_prefix(events, 2);
        assert(events.take(2).drop_last() == events.take(1));
        assert(passes(events, 2, Stage::Execute));
    }
    assert forall|m: int, n: int| #[trigger]
        passes(events, m, Stage::Execute) && #[trigger] passes(
            events,
            n,
            Stage::Execute,
        ) implies m == n by {
        if m < n {
            lemma_prefix(events.take(n), m);
            assert(events.take(n).take(m) == events.take(m));
        } else if n < m {
            lemma_prefix(events.take(m), n);
            assert(events.take(m).take(n) == events.take(n));
        }
    }
}

proof fn lemma_prefix(events: Seq<Event>, n: int)
    requires
        reached(Stage::Build, events) is Some,
        0 <= n <= events.len(),
    ensures
        reached(Stage::Build, events.take(n)) is Some,
        steps_left(reached(Stage::Build, events).unwrap()) + (events.len() - n) <= steps_left(
            reached(Stage::Build, events.take(n)).unwrap(),
        ),
    decreases events.len(),
{
    if n == events.len() {
        assert(events.take(n) == events);
    } else {
        lemma_prefix(events.drop_last(), n);
        assert(events.drop_last().take(n) == events.take(n));
    }
}

/// What leads to each stage, and nothing else does: the logs are written to
/// exactly where they are on, the request is executed once it is built and
/// logged, and the caller gets an error exactly where building or executing
/// failed. An event that does not belong to the stage leads nowhere.
pub proof fn each_stage_has_its_reason(stage: Stage, event: Event, r: Option<Stage>)
    requires
        call_ensures(next, (stage, event), r),
    ensures
        r != Some(Stage::Build),
        r == Some(Stage::LogRequest) <==> stage == Stage::Build && event == (Event::Built {
            logging: true,
        }),
        r == Some(Stage::Execute) <==> (stage == Stage::Build && event == (Event::Built {
            logging: false,
        })) || (stage == Stage::LogRequest && event is RequestLogged),
        r == Some(Stage::CollectBody) <==> stage == Stage::Execute && event == (Event::Responded {
            logging: true,
        }),
        r == Some(Stage::LogResponse) <==> stage == Stage::CollectBody && event == (
        Event::BodyCollected { complete: true }),
        r == Some(Stage::LogFailure) <==> stage == Stage::Execute && event == (
        Event::ExecuteFailed { logging: true }),
        r == Some(Stage::Done(Outcome::Error)) <==> (stage == Stage::Build
            && event is BuildRefused) || (stage == Stage::Execute && event == (
        Event::ExecuteFailed { logging: false })) || (stage == Stage::LogFailure
            && event is FailureLogged),
        r == Some(Stage::Done(Outcome::Response(Delivery::Streamed))) <==> stage == Stage::Execute
            && event == (Event::Responded { logging: false }),
        r == Some(Stage::Done(Outcome::Response(Delivery::Buffered))) <==> stage
            == Stage::LogResponse && event is ResponseLogged,
        r == Some(Stage::Done(Outcome::Response(Delivery::Emptied))) <==> stage
            == Stage::CollectBody && event == (Event::BodyCollected { complete: false }),
        r is None <==> match event {
            Event::Built { .. } => stage != Stage::Build,
            Event::BuildRefused => stage != Stage::Build,
            Event::RequestLogged { .. } => stage != Stage::LogRequest,
            Event::Responded { .. } => stage != Stage::Execute,
            Event::ExecuteFailed { .. } => stage != Stage::Execute,
            Event::BodyCollected { .. } => stage != Stage::CollectBody,
            Event::ResponseLogged { .. } => stage != Stage::LogResponse,
            Event::FailureLogged { .. } => stage != Stage::LogFailure,
        },
{
}

/// Requests are written to their own log, responses and failures to another, and
/// no other stage writes to one.
pub proof fn each_log_has_its_path(stage: Stage, r: Option<&'static str>)
    requires
        call_ensures(log_path, (stage,), r),
    ensures
        (r matches Some(path) && path@ == "/tmp/codex-http-requests.log"@) <==> stage
            == Stage::LogRequest,
        (r matches Some(path) && path@ == "/tmp/codex-http-responses.log"@) <==> stage
            == Stage::LogResponse || stage == Stage::LogFailure,
        r is None <==> stage != Stage::LogRequest && stage != Stage::LogResponse && stage
            != Stage::LogFailure,
{
    reveal_strlit("/tmp/codex-http-requests.log");
    reveal_strlit("/tmp/codex-http-responses.log");
    assert("/tmp/codex-http-requests.log"@.len() == 28);
    assert("/tmp/codex-http-responses.log"@.len() == 29);
}

/// A response that nobody read is not rebuilt. One that was read for the log is
/// rebuilt with every octet that was read, and one whose body broke off is
/// rebuilt without any.
pub proof fn rebuilt_body_is_the_one_that_was_read(
    delivery: Delivery,
    collected: Vec<u8>,
    r: Option<Vec<u8>>,
)
    requires
        call_ensures(delivered_body, (delivery, collected), r),
    ensures
        r is None <==> delivery == Delivery::Streamed,
        delivery == Delivery::Buffered ==> (r matches Some(body) && body@ == collected@),
        delivery == Delivery::Emptied ==> (r matches Some(body) && body@.len() == 0),
{
}

proof fn lemma_step(events: Seq<Event>, n: int)
    requires
        reached(Stage::Build, events) is Some,
        0 <= n < events.len(),
    ensures
        reached(Stage::Build, events.take(n)) is Some,
        reached(Stage::Build, events.take(n + 1)) is Some,
        reached(Stage::Build, events.take(n + 1)) == successor(
            reached(Stage::Build, events.take(n)).unwrap(),
            events[n],
        ),
{
    lemma_prefix(events, n);
    lemma_prefix(events, n + 1);
    assert(events.take(n + 1).drop_last() =~= events.take(n));
    assert(events.take(n + 1).last() == events[n]);
}

/// While the logs are on, every request that could be built is written to its
/// log, and so is what came of it: a failure, or a response, unless its body
/// broke off.
pub proof fn all_is_logged_while_logging_is_on(events: Seq<Event>)
    requires
        reached(Stage::Build, events) matches Some(Stage::Done(_)),
        forall|i: int|
            0 <= i < events.len() ==> match #[trigger] events[i] {
                Event::Built { logging } => logging,
                Event::Responded { logging } => logging,
                Event::ExecuteFailed { logging } => logging,
                _ => true,
            },
        !(events[0] is BuildRefused),
    ensures
        passes(events, 1, Stage::LogRequest),
        passes(events, 2, Stage::Execute),
        events[2] is ExecuteFailed ==> passes(events, 3, Stage::LogFailure),
        events[2] is Responded ==> passes(events, 3, Stage::CollectBody),
        events[2] is Responded && events[3] == (Event::BodyCollected { complete: true })
            ==> passes(events, 4, Stage::LogResponse),
        events[2] is ExecuteFailed || events[2] is Responded,
{
    assert(events.take(0) =~= Seq::<Event>::empty());
    assert(events.take(events.len() as int) =~= events);
    assert(reached(Stage::Build, events.take(0)) == Some(Stage::Build));
    lemma_step(events, 0);
    lemma_step(events, 1);
    lemma_step(events, 2);
    if events[2] is Responded {
        lemma_step(events, 3);
    }
}

} // verus!
