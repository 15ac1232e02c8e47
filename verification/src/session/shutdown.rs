//! Ending the worker loop.

use crate::inference::OutcomeView;
use crate::ollama::{OllamaMessageView, WorkerState};
use crate::session::{advance, complete, receive, run, Session, SessionEvent};
use vstd::prelude::*;

verus! {

/// The session once the worker loop has gone as far as it can by itself, the
/// call numbered `n` (from 0) ending with `outcomes(n)`: every call in flight
/// has ended and every message that the loop is able to take has been taken.
pub open spec fn settle(s: Session, outcomes: spec_fn(int) -> OutcomeView) -> Session
    decreases
        2 * s.queue.len() + (if s.worker.state == WorkerState::Generating {
            1int
        } else {
            0int
        }),
{
    if s.worker.state == WorkerState::Generating {
        settle(complete(s, outcomes(s.calls.len() - 1)), outcomes)
    } else if s.worker.state == WorkerState::Idle && s.queue.len() > 0 {
        settle(receive(s), outcomes)
    } else {
        receive(s)
    }
}

/// With a `Quit` in the queue, or with the sending side gone, the worker loop
/// ends, whatever it was doing and however its calls end.
pub proof fn lemma_quit_ends_the_loop(s: Session, outcomes: spec_fn(int) -> OutcomeView)
    requires
        s.queue.contains(OllamaMessageView::Quit) || !s.connected,
    ensures
        settle(s, outcomes).worker.state == WorkerState::Terminated,
    decreases
        2 * s.queue.len() + (if s.worker.state == WorkerState::Generating {
            1int
        } else {
            0int
        }),
{
    if s.worker.state == WorkerState::Generating {
        lemma_quit_ends_the_loop(complete(s, outcomes(s.calls.len() - 1)), outcomes);
    } else if s.worker.state == WorkerState::Idle && s.queue.len() > 0 {
        let t = receive(s);
        if s.queue.first() != OllamaMessageView::Quit {
            if s.queue.contains(OllamaMessageView::Quit) {
                let k = choose|k: int|
                    0 <= k < s.queue.len() && s.queue[k] == OllamaMessageView::Quit;
                assert(t.queue[k - 1] == OllamaMessageView::Quit);
            }
            lemma_quit_ends_the_loop(t, outcomes);
        } else {
            assert(t.worker.state == WorkerState::Terminated);
            assert(settle(t, outcomes) == t);
        }
    }
}

/// Shutdown ends the worker loop whether it is asked for before, during or
/// after a generation call: from any session, the loop, left to itself after
/// `Shutdown`, reaches its terminal state, however its calls end.
pub proof fn lemma_shutdown_terminates(s: Session, outcomes: spec_fn(int) -> OutcomeView)
    ensures
        settle(advance(s, SessionEvent::Shutdown), outcomes).worker.state
            == WorkerState::Terminated,
{
    let t = advance(s, SessionEvent::Shutdown);
    if s.connected {
        assert(t.queue[s.queue.len() as int] == OllamaMessageView::Quit);
    }
    lemma_quit_ends_the_loop(t, outcomes);
}

/// What is queued behind a `Quit` is never taken: it changes nothing but the
/// queue that is left over.
pub proof fn lemma_nothing_after_quit(
    s: Session,
    later: Seq<OllamaMessageView>,
    outcomes: spec_fn(int) -> OutcomeView,
)
    requires
        s.queue.contains(OllamaMessageView::Quit),
    ensures
        settle(Session { queue: s.queue + later, ..s }, outcomes) == (Session {
            queue: settle(s, outcomes).queue + later,
            ..settle(s, outcomes)
        }),
    decreases
        2 * s.queue.len() + (if s.worker.state == WorkerState::Generating {
            1int
        } else {
            0int
        }),
{
    let longer = Session { queue: s.queue + later, ..s };
    let k = choose|k: int| 0 <= k < s.queue.len() && s.queue[k] == OllamaMessageView::Quit;
    if s.worker.state == WorkerState::Generating {
        let outcome = outcomes(s.calls.len() - 1);
        assert(complete(longer, outcome) == Session {
            queue: complete(s, outcome).queue + later,
            ..complete(s, outcome)
        });
        lemma_nothing_after_quit(complete(s, outcome), later, outcomes);
    } else if s.worker.state == WorkerState::Idle {
        let t = receive(s);
        assert(longer.queue.first() == s.queue.first());
        assert(longer.queue.drop_first() =~= t.queue + later);
        assert(receive(longer) == Session { queue: t.queue + later, ..t });
        if s.queue.first() != OllamaMessageView::Quit {
            assert(t.queue[k - 1] == OllamaMessageView::Quit);
            lemma_nothing_after_quit(t, later, outcomes);
        } else {
            assert(settle(t, outcomes) == t);
            assert(settle(receive(longer), outcomes) == receive(longer));
        }
    }
}

/// Shutdown is idempotent: asking twice leaves the worker loop, the calls and
/// the conversation as asking once does; the second `Quit` stays in the queue.
pub proof fn lemma_shutdown_is_idempotent(s: Session, outcomes: spec_fn(int) -> OutcomeView)
    ensures
        ({
            let once = settle(advance(s, SessionEvent::Shutdown), outcomes);
            let twice = settle(
                advance(advance(s, SessionEvent::Shutdown), SessionEvent::Shutdown),
                outcomes,
            );
            &&& twice.worker == once.worker
            &&& twice.calls == once.calls
            &&& twice.shown == once.shown
            &&& twice.scheduled == once.scheduled
            &&& twice.reported == once.reported
            &&& s.connected ==> twice.queue == once.queue.push(OllamaMessageView::Quit)
        }),
{
    if s.connected {
        let t = advance(s, SessionEvent::Shutdown);
        let later = seq![OllamaMessageView::Quit];
        assert(t.queue[s.queue.len() as int] == OllamaMessageView::Quit);
        assert(advance(t, SessionEvent::Shutdown).queue =~= t.queue + later);
        lemma_nothing_after_quit(t, later, outcomes);
        assert(settle(t, outcomes).queue + later =~= settle(t, outcomes).queue.push(
            OllamaMessageView::Quit,
        ));
    }
}

/// Once the worker loop has ended, nothing is processed any more: whatever
/// happens, the loop stays as it is, no call is made, and nothing is posted
/// or reported.
pub proof fn lemma_terminated_stays(s: Session, events: Seq<SessionEvent>)
    requires
        s.worker.state == WorkerState::Terminated,
    ensures
        run(s, events).worker == s.worker,
        run(s, events).calls == s.calls,
        run(s, events).reported == s.reported,
        run(s, events).scheduled.len() <= s.scheduled.len(),
    decreases events.len(),
{
    if events.len() > 0 {
        lemma_terminated_stays(s, events.drop_last());
    }
}

} // verus!
