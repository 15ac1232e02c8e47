//! The calls of the inference client: one at a time, each with the token
//! that the one before left behind.

use crate::ollama::{OllamaMessageView, WorkerState};
use crate::session::{advance, initial, run, CallView, Session, SessionEvent};
use vstd::prelude::*;

verus! {

/// The token that the conversation holds after `call`: the one a successful
/// call returned, else the one the call was made with.
pub open spec fn carried(call: CallView) -> Option<Seq<i32>> {
    match call.outcome {
        Some(Ok(result)) => result.new_continuation,
        _ => call.request.continuation,
    }
}

/// Whether every call of `calls` but the last has ended.
pub open spec fn all_but_last_ended(calls: Seq<CallView>) -> bool {
    forall|i: int| 0 <= i < calls.len() - 1 ==> (#[trigger] calls[i]).outcome is Some
}

/// Whether the first call of `calls` carries no token and every later one
/// the token that the call before it left behind.
pub open spec fn tokens_threaded(calls: Seq<CallView>) -> bool {
    &&& calls.len() > 0 ==> calls[0].request.continuation is None
    &&& forall|i: int|
        0 <= i < calls.len() - 1 ==> calls[i + 1].request.continuation == carried(
            #[trigger] calls[i],
        )
}

/// Whether the calls of `s` were made one after the other, for the worker
/// loop's model, each with the token that the one before left behind, and
/// the worker loop holds the token that the last one left behind.
pub open spec fn orderly(s: Session) -> bool {
    &&& all_but_last_ended(s.calls)
    &&& tokens_threaded(s.calls)
    &&& s.worker.state == WorkerState::Generating <==> s.calls.len() > 0
        && s.calls.last().outcome is None
    &&& s.worker.continuation == if s.calls.len() == 0 {
        None
    } else {
        carried(s.calls.last())
    }
    &&& forall|i: int| 0 <= i < s.calls.len() ==> (#[trigger] s.calls[i]).model == s.worker.model
}

proof fn lemma_advance_orderly(s: Session, event: SessionEvent)
    requires
        orderly(s),
    ensures
        orderly(advance(s, event)),
        advance(s, event).worker.model == s.worker.model,
{
    let t = advance(s, event);
    let n = s.calls.len() as int;
    match event {
        SessionEvent::Receive => {
            if s.worker.state == WorkerState::Idle && s.queue.len() > 0 {
                match s.queue.first() {
                    OllamaMessageView::Generate { text } => {
                        assert(t.calls.len() == n + 1);
                        assert(t.calls.last().request.continuation == s.worker.continuation);
                        assert forall|i: int| 0 <= i < n implies #[trigger] t.calls[i]
                            == s.calls[i] by {}
                    },
                    OllamaMessageView::Quit => {},
                }
            }
        },
        SessionEvent::Complete { outcome } => {
            if s.worker.state == WorkerState::Generating {
                assert(t.calls.len() == n);
                assert(t.calls.last().outcome == Some(outcome));
                assert(t.calls.last().request == s.calls.last().request);
                assert forall|i: int| 0 <= i < n - 1 implies #[trigger] t.calls[i]
                    == s.calls[i] by {}
                assert forall|i: int| 0 <= i < n implies (#[trigger] t.calls[i]).model
                    == s.calls[i].model by {}
            }
        },
        _ => {},
    }
}

/// In every session that events lead to from the start, the calls were made
/// one after the other, each with the token that the one before left behind.
pub proof fn lemma_run_orderly(model: Seq<char>, events: Seq<SessionEvent>)
    ensures
        orderly(run(initial(model), events)),
        run(initial(model), events).worker.model == model,
    decreases events.len(),
{
    if events.len() > 0 {
        lemma_run_orderly(model, events.drop_last());
        lemma_advance_orderly(run(initial(model), events.drop_last()), events.last());
    }
}

/// Whatever the order and rate of the events, the first call carries no
/// token, and every later call carries the token that the call before it
/// returned, or, where that call failed, the token that it was made with.
pub proof fn lemma_token_threading(model: Seq<char>, events: Seq<SessionEvent>, n: int)
    requires
        0 <= n < run(initial(model), events).calls.len(),
    ensures
        ({
            let calls = run(initial(model), events).calls;
            &&& n == 0 ==> calls[n].request.continuation is None
            &&& n > 0 ==> match calls[n - 1].outcome {
                Some(Ok(result)) => calls[n].request.continuation == result.new_continuation,
                Some(Err(_)) => calls[n].request.continuation == calls[n - 1].request.continuation,
                None => false,
            }
        }),
{
    lemma_run_orderly(model, events);
    let calls = run(initial(model), events).calls;
    if n > 0 {
        assert(calls[n - 1].outcome is Some);
        assert(calls[n - 1 + 1].request.continuation == carried(calls[n - 1]));
    }
}

/// Whatever the order and rate of the events, at most one call is in flight:
/// every call but the latest has ended, and the latest is in flight exactly
/// while the worker loop waits for its outcome.
pub proof fn lemma_one_call_in_flight(model: Seq<char>, events: Seq<SessionEvent>)
    ensures
        ({
            let s = run(initial(model), events);
            &&& forall|i: int|
                0 <= i < s.calls.len() && (#[trigger] s.calls[i]).outcome is None ==> i
                    == s.calls.len() - 1
            &&& s.worker.state == WorkerState::Generating <==> s.calls.len() > 0
                && s.calls.last().outcome is None
        }),
{
    lemma_run_orderly(model, events);
}

/// An event starts at most one call, and only while none is in flight; it
/// never changes what a call was made with, nor how a call has ended.
pub proof fn lemma_calls_start_one_at_a_time(s: Session, event: SessionEvent)
    requires
        orderly(s),
    ensures
        ({
            let t = advance(s, event);
            &&& t.calls.len() == s.calls.len() || t.calls.len() == s.calls.len() + 1
            &&& t.calls.len() == s.calls.len() + 1 ==> s.worker.state == WorkerState::Idle
                && forall|i: int|
                0 <= i < s.calls.len() ==> (#[trigger] s.calls[i]).outcome is Some
            &&& forall|i: int|
                0 <= i < s.calls.len() ==> (#[trigger] t.calls[i]).request == s.calls[i].request
                    && (s.calls[i].outcome is Some ==> t.calls[i] == s.calls[i])
        }),
{
    let t = advance(s, event);
    if t.calls.len() != s.calls.len() {
        assert forall|i: int| 0 <= i < s.calls.len() implies (
            #[trigger] s.calls[i]
        ).outcome is Some by {
            if i == s.calls.len() - 1 {
                assert(s.calls[i] == s.calls.last());
            }
        }
    }
}

} // verus!
