//! The worker loop's decisions.
//!
//! One background task serves every generation request of a conversation. It
//! waits for a message, issues at most one generation call, waits for its
//! outcome, and only then waits for the next message. [`WorkerLoop`] holds what
//! the task remembers between these points and decides, for each event, what
//! the task does next; waiting, calling and posting to the UI are left to the
//! caller.

use crate::config::Configuration;
use crate::inference::{
    continuation_view, copy_continuation, outcome_view, ContinuationToken, GenerationRequest,
    GenerationRequestView, GenerationResult, InferenceError, OutcomeView,
};
use crate::text::{trim, trimmed};
use vstd::prelude::*;

verus! {

/// What is sent to the worker loop through its queue.
#[derive(Debug, PartialEq, Eq)]
pub enum OllamaMessage {
    /// End the loop.
    Quit,
    /// Generate a reply to `text`.
    Generate { text: String },
}

/// A message as contracts see it.
pub enum OllamaMessageView {
    Quit,
    Generate { text: Seq<char> },
}

impl View for OllamaMessage {
    type V = OllamaMessageView;

    open spec fn view(&self) -> OllamaMessageView {
        match self {
            OllamaMessage::Quit => OllamaMessageView::Quit,
            OllamaMessage::Generate { text } => OllamaMessageView::Generate { text: text@ },
        }
    }
}

/// Where the worker loop stands.
#[derive(Clone, Copy, Debug, PartialEq, Eq, Structural)]
pub enum WorkerState {
    /// Waiting for the next message.
    Idle,
    /// Waiting for the outcome of the generation call in flight.
    Generating,
    /// The loop has ended; nothing is processed any more.
    Terminated,
}

/// What happened at the point where the worker loop was waiting.
#[derive(Debug, PartialEq, Eq)]
pub enum WorkerEvent {
    /// The queue handed over its oldest message.
    Received(OllamaMessage),
    /// The queue is empty and every sender is gone.
    Disconnected,
    /// The inference client returned.
    Completed(Result<GenerationResult, InferenceError>),
}

/// An event as contracts see it.
pub enum WorkerEventView {
    Received(OllamaMessageView),
    Disconnected,
    Completed(OutcomeView),
}

impl View for WorkerEvent {
    type V = WorkerEventView;

    open spec fn view(&self) -> WorkerEventView {
        match self {
            WorkerEvent::Received(message) => WorkerEventView::Received(message@),
            WorkerEvent::Disconnected => WorkerEventView::Disconnected,
            WorkerEvent::Completed(outcome) => WorkerEventView::Completed(outcome_view(*outcome)),
        }
    }
}

/// What the worker loop does in answer to an event.
#[derive(Debug, PartialEq, Eq)]
pub enum WorkerAction {
    /// Call the inference client for `model` with `request`, and hand its
    /// outcome back as [`WorkerEvent::Completed`].
    Generate { model: String, request: GenerationRequest },
    /// Schedule `text` to be appended to the conversation as the assistant's reply.
    Deliver { text: String },
    /// Tell the user that the call failed.
    Report { error: InferenceError },
    /// Leave the loop.
    Stop,
    /// A call is in flight, so `message` was not taken: offer it again once
    /// the call has completed.
    Defer { message: OllamaMessage },
    /// The event does not concern the loop in its present state.
    Ignore,
}

/// An action as contracts see it.
pub enum WorkerActionView {
    Generate { model: Seq<char>, request: GenerationRequestView },
    Deliver { text: Seq<char> },
    Report { error: Seq<char> },
    Stop,
    Defer { message: OllamaMessageView },
    Ignore,
}

impl View for WorkerAction {
    type V = WorkerActionView;

    open spec fn view(&self) -> WorkerActionView {
        match self {
            WorkerAction::Generate { model, request } => WorkerActionView::Generate {
                model: model@,
                request: request@,
            },
            WorkerAction::Deliver { text } => WorkerActionView::Deliver { text: text@ },
            WorkerAction::Report { error } => WorkerActionView::Report { error: error@ },
            WorkerAction::Stop => WorkerActionView::Stop,
            WorkerAction::Defer { message } => WorkerActionView::Defer { message: message@ },
            WorkerAction::Ignore => WorkerActionView::Ignore,
        }
    }
}

/// What the worker loop remembers between two events.
pub struct WorkerLoop {
    model: String,
    state: WorkerState,
    continuation: Option<ContinuationToken>,
}

/// A worker loop as contracts see it.
pub struct WorkerView {
    /// The model every request is made for.
    pub model: Seq<char>,
    pub state: WorkerState,
    /// The token of the last successful reply, if there was one.
    pub continuation: Option<Seq<i32>>,
}

impl View for WorkerLoop {
    type V = WorkerView;

    closed spec fn view(&self) -> WorkerView {
        WorkerView {
            model: self.model@,
            state: self.state,
            continuation: continuation_view(self.continuation),
        }
    }
}

/// A worker loop that has processed nothing yet.
pub open spec fn initial_worker(model: Seq<char>) -> WorkerView {
    WorkerView { model, state: WorkerState::Idle, continuation: None }
}

/// The worker loop after `event`.
///
/// A message is taken only while idle: a request starts a call, `Quit` or a
/// closed queue ends the loop. An outcome is taken only while a call is in
/// flight: it ends the call, and a successful one replaces the token by the
/// one it brought (or by none). Everything else leaves the loop as it is.
pub open spec fn next_worker(worker: WorkerView, event: WorkerEventView) -> WorkerView {
    match (worker.state, event) {
        (WorkerState::Idle, WorkerEventView::Received(OllamaMessageView::Generate { .. })) => {
            WorkerView { state: WorkerState::Generating, ..worker }
        },
        (WorkerState::Idle, WorkerEventView::Received(OllamaMessageView::Quit)) => WorkerView {
            state: WorkerState::Terminated,
            ..worker
        },
        (WorkerState::Idle, WorkerEventView::Disconnected) => WorkerView {
            state: WorkerState::Terminated,
            ..worker
        },
        (WorkerState::Generating, WorkerEventView::Completed(Ok(result))) => WorkerView {
            state: WorkerState::Idle,
            continuation: result.new_continuation,
            ..worker
        },
        (WorkerState::Generating, WorkerEventView::Completed(Err(_))) => WorkerView {
            state: WorkerState::Idle,
            ..worker
        },
        _ => worker,
    }
}

/// What the worker loop does in answer to `event`.
///
/// A request taken while idle is sent on with the token held at that moment;
/// a reply is delivered trimmed; a failure is reported. A message that arrives
/// while a call is in flight is handed back.
pub open spec fn action_of(worker: WorkerView, event: WorkerEventView) -> WorkerActionView {
    match (worker.state, event) {
        (WorkerState::Idle, WorkerEventView::Received(OllamaMessageView::Generate { text })) => {
            WorkerActionView::Generate {
                model: worker.model,
                request: GenerationRequestView { prompt: text, continuation: worker.continuation },
            }
        },
        (WorkerState::Idle, WorkerEventView::Received(OllamaMessageView::Quit)) => {
            WorkerActionView::Stop
        },
        (WorkerState::Idle, WorkerEventView::Disconnected) => WorkerActionView::Stop,
        (WorkerState::Idle, WorkerEventView::Completed(_)) => WorkerActionView::Ignore,
        (WorkerState::Generating, WorkerEventView::Received(message)) => WorkerActionView::Defer {
            message,
        },
        (WorkerState::Generating, WorkerEventView::Disconnected) => WorkerActionView::Ignore,
        (WorkerState::Generating, WorkerEventView::Completed(Ok(result))) => {
            WorkerActionView::Deliver { text: trimmed(result.text) }
        },
        (WorkerState::Generating, WorkerEventView::Completed(Err(error))) => {
            WorkerActionView::Report { error }
        },
        (WorkerState::Terminated, _) => WorkerActionView::Stop,
    }
}

/// The loop is told to stop exactly when it has ended, and once ended it
/// stays ended.
pub proof fn lemma_stop_iff_terminated(worker: WorkerView, event: WorkerEventView)
    ensures
        action_of(worker, event) is Stop <==> next_worker(worker, event).state
            == WorkerState::Terminated,
        worker.state == WorkerState::Terminated ==> next_worker(worker, event) == worker,
{
}

/// A call is started only by an idle loop, which then waits for its outcome;
/// while it waits, no event starts another call or changes the token, and
/// only the outcome ends the wait.
pub proof fn lemma_one_call_at_a_time(worker: WorkerView, event: WorkerEventView)
    ensures
        action_of(worker, event) is Generate ==> worker.state == WorkerState::Idle
            && next_worker(worker, event).state == WorkerState::Generating,
        worker.state == WorkerState::Generating && !(event is Completed) ==> next_worker(
            worker,
            event,
        ) == worker,
{
}

/// The token changes only when a call succeeds, and then to what the call
/// returned; a failed call leaves it as it was.
pub proof fn lemma_token_changes_on_success_only(worker: WorkerView, event: WorkerEventView)
    ensures
        next_worker(worker, event).continuation == match (worker.state, event) {
            (WorkerState::Generating, WorkerEventView::Completed(Ok(result))) => {
                result.new_continuation
            },
            _ => worker.continuation,
        },
        next_worker(worker, event).model == worker.model,
{
}

impl WorkerLoop {
    /// A worker loop for the model that `config` names: idle, with no token.
    pub fn new(config: &Configuration) -> (worker: Self)
        ensures
            worker@ == initial_worker(config@.model),
    {
        WorkerLoop {
            model: config.ollama_model().to_owned(),
            state: WorkerState::Idle,
            continuation: None,
        }
    }

    /// Where the loop stands.
    pub fn state(&self) -> (state: WorkerState)
        ensures
            state == self@.state,
    {
        self.state
    }

    /// The token that the next request will carry.
    pub fn continuation(&self) -> (token: &Option<ContinuationToken>)
        ensures
            continuation_view(*token) == self@.continuation,
    {
        &self.continuation
    }

    /// Takes `event` and says what to do next.
    pub fn step(&mut self, event: WorkerEvent) -> (action: WorkerAction)
        ensures
            final(self)@ == next_worker(old(self)@, event@),
            action@ == action_of(old(self)@, event@),
    {
        match self.state {
            WorkerState::Idle => match event {
                WorkerEvent::Received(OllamaMessage::Generate { text }) => {
                    self.state = WorkerState::Generating;
                    WorkerAction::Generate {
                        model: self.model.clone(),
                        request: GenerationRequest {
                            prompt: text,
                            continuation: copy_continuation(&self.continuation),
                        },
                    }
                },
                WorkerEvent::Received(OllamaMessage::Quit) => {
                    self.state = WorkerState::Terminated;
                    WorkerAction::Stop
                },
                WorkerEvent::Disconnected => {
                    self.state = WorkerState::Terminated;
                    WorkerAction::Stop
                },
                WorkerEvent::Completed(_) => WorkerAction::Ignore,
            },
            WorkerState::Generating => match event {
                WorkerEvent::Received(message) => WorkerAction::Defer { message },
                WorkerEvent::Disconnected => WorkerAction::Ignore,
                WorkerEvent::Completed(Ok(result)) => {
                    self.state = WorkerState::Idle;
                    self.continuation = result.new_continuation;
                    WorkerAction::Deliver { text: trim(result.text.as_str()) }
                },
                WorkerEvent::Completed(Err(error)) => {
                    self.state = WorkerState::Idle;
                    WorkerAction::Report { error }
                },
            },
            WorkerState::Terminated => WorkerAction::Stop,
        }
    }
}

} // verus!
