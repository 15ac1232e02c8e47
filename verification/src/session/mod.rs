//! The chat session as a whole, and what holds of every run of it.
//!
//! A session has two sides that share nothing but a queue and a way to post
//! replies back: the UI context, which shows the conversation and sends
//! messages, and the worker loop, which receives them and calls the inference
//! client. [`Session`] puts both sides, the queue between them and the record
//! of the calls made into one value; [`advance`] moves it by one event, using
//! the same rules that [`crate::ollama::WorkerLoop::step`] and
//! [`crate::conversation::Conversation`] are verified against. The events may
//! come in any order and at any rate, so what is proved of every run holds of
//! every interleaving of the two sides.

pub mod calls;
pub mod order;
pub mod shutdown;
pub mod turns;

use crate::conversation::{received, submitted, MessageView};
use crate::inference::{GenerationRequestView, OutcomeView};
use crate::ollama::{
    action_of, initial_worker, next_worker, OllamaMessageView, WorkerActionView, WorkerEventView,
    WorkerState, WorkerView,
};
use vstd::prelude::*;

verus! {

/// One call of the inference client.
pub struct CallView {
    pub model: Seq<char>,
    pub request: GenerationRequestView,
    /// How the call ended; `None` while it is in flight.
    pub outcome: Option<OutcomeView>,
}

/// A chat session at one instant.
pub struct Session {
    /// The conversation as the UI context shows it.
    pub shown: Seq<MessageView>,
    /// The messages sent to the worker loop and not yet received, oldest first.
    pub queue: Seq<OllamaMessageView>,
    /// Whether the sending side of the queue still exists.
    pub connected: bool,
    pub worker: WorkerView,
    /// Every call of the inference client so far, oldest first.
    pub calls: Seq<CallView>,
    /// The replies posted to the UI context and not yet shown, oldest first.
    pub scheduled: Seq<Seq<char>>,
    /// The failures that the worker loop has reported, oldest first.
    pub reported: Seq<Seq<char>>,
}

/// What can happen in a session.
pub enum SessionEvent {
    /// The user submits `text`.
    Submit { text: Seq<char> },
    /// The UI side asks the worker loop to end.
    Shutdown,
    /// The sending side of the queue is dropped.
    Disconnect,
    /// The queue offers the worker loop what it has.
    Receive,
    /// The inference client returns `outcome` for the call in flight.
    Complete { outcome: OutcomeView },
    /// The UI context runs the oldest update posted to it.
    Present,
}

/// The session before anything has happened.
pub open spec fn initial(model: Seq<char>) -> Session {
    Session {
        shown: Seq::empty(),
        queue: Seq::empty(),
        connected: true,
        worker: initial_worker(model),
        calls: Seq::empty(),
        scheduled: Seq::empty(),
        reported: Seq::empty(),
    }
}

/// The session after `message` has been sent. Nothing can be sent once the
/// sending side is gone.
pub open spec fn send(s: Session, message: OllamaMessageView) -> Session {
    if s.connected {
        Session { queue: s.queue.push(message), ..s }
    } else {
        s
    }
}

/// The calls after the worker loop has answered an event with `action`.
pub open spec fn calls_after(calls: Seq<CallView>, action: WorkerActionView) -> Seq<CallView> {
    match action {
        WorkerActionView::Generate { model, request } => calls.push(
            CallView { model, request, outcome: None },
        ),
        _ => calls,
    }
}

/// The session after the queue has offered the worker loop what it has: its
/// oldest message or, once it is empty and the sending side is gone, the
/// news of that. A loop that has ended is offered nothing; a message that the
/// loop hands back stays at the head of the queue.
pub open spec fn receive(s: Session) -> Session {
    if s.worker.state == WorkerState::Terminated {
        s
    } else if s.queue.len() > 0 {
        let event = WorkerEventView::Received(s.queue.first());
        match action_of(s.worker, event) {
            WorkerActionView::Defer { .. } => s,
            action => Session {
                queue: s.queue.drop_first(),
                worker: next_worker(s.worker, event),
                calls: calls_after(s.calls, action),
                ..s
            },
        }
    } else if !s.connected {
        Session { worker: next_worker(s.worker, WorkerEventView::Disconnected), ..s }
    } else {
        s
    }
}

/// The session after the call in flight has ended with `outcome`: the worker
/// loop posts the reply to the UI context, or reports the failure.
pub open spec fn complete(s: Session, outcome: OutcomeView) -> Session {
    if s.worker.state != WorkerState::Generating {
        s
    } else {
        let event = WorkerEventView::Completed(outcome);
        Session {
            worker: next_worker(s.worker, event),
            calls: if s.calls.len() > 0 {
                s.calls.update(
                    s.calls.len() - 1,
                    CallView { outcome: Some(outcome), ..s.calls.last() },
                )
            } else {
                s.calls
            },
            scheduled: match action_of(s.worker, event) {
                WorkerActionView::Deliver { text } => s.scheduled.push(text),
                _ => s.scheduled,
            },
            reported: match action_of(s.worker, event) {
                WorkerActionView::Report { error } => s.reported.push(error),
                _ => s.reported,
            },
            ..s
        }
    }
}

/// The session after the UI context has run the oldest update posted to it.
pub open spec fn present(s: Session) -> Session {
    if s.scheduled.len() > 0 {
        Session {
            shown: received(s.shown, s.scheduled.first()),
            scheduled: s.scheduled.drop_first(),
            ..s
        }
    } else {
        s
    }
}

/// The session after `event`.
pub open spec fn advance(s: Session, event: SessionEvent) -> Session {
    match event {
        SessionEvent::Submit { text } => Session {
            shown: submitted(s.shown, text),
            ..send(s, OllamaMessageView::Generate { text })
        },
        SessionEvent::Shutdown => send(s, OllamaMessageView::Quit),
        SessionEvent::Disconnect => Session { connected: false, ..s },
        SessionEvent::Receive => receive(s),
        SessionEvent::Complete { outcome } => complete(s, outcome),
        SessionEvent::Present => present(s),
    }
}

/// The session after `events`, in their order.
pub open spec fn run(s: Session, events: Seq<SessionEvent>) -> Session
    decreases events.len(),
{
    if events.len() == 0 {
        s
    } else {
        advance(run(s, events.drop_last()), events.last())
    }
}

} // verus!
