use ollama_chat::config::config;
use ollama_chat::inference::{
    ContinuationToken, GenerationRequest, GenerationResult, InferenceError,
};
use ollama_chat::ollama::{OllamaMessage, WorkerAction, WorkerEvent, WorkerLoop, WorkerState};

fn worker() -> WorkerLoop {
    WorkerLoop::new(&config("localhost".to_string(), 11434, "llama3".to_string()))
}

fn generate(text: &str) -> WorkerEvent {
    WorkerEvent::Received(OllamaMessage::Generate { text: text.to_string() })
}

fn success(text: &str, tokens: Option<Vec<i32>>) -> WorkerEvent {
    WorkerEvent::Completed(Ok(GenerationResult {
        text: text.to_string(),
        new_continuation: tokens.map(ContinuationToken::new),
    }))
}

fn failure(message: &str) -> WorkerEvent {
    WorkerEvent::Completed(Err(InferenceError::new(message.to_string())))
}

fn request(model: &str, prompt: &str, tokens: Option<Vec<i32>>) -> WorkerAction {
    WorkerAction::Generate {
        model: model.to_string(),
        request: GenerationRequest {
            prompt: prompt.to_string(),
            continuation: tokens.map(ContinuationToken::new),
        },
    }
}

#[test]
fn a_new_worker_is_idle_and_holds_no_token() {
    let worker = worker();
    assert_eq!(worker.state(), WorkerState::Idle);
    assert_eq!(worker.continuation(), &None);
}

#[test]
fn the_first_request_carries_no_token() {
    let mut worker = worker();
    assert_eq!(worker.step(generate("Hello")), request("llama3", "Hello", None));
    assert_eq!(worker.state(), WorkerState::Generating);
    assert_eq!(worker.continuation(), &None);
}

#[test]
fn the_request_names_the_configured_model() {
    let mut worker = WorkerLoop::new(&config("h".to_string(), 1, "mistral:7b".to_string()));
    assert_eq!(worker.step(generate("q")), request("mistral:7b", "q", None));
}

#[test]
fn the_prompt_is_sent_as_submitted() {
    let mut worker = worker();
    let action = worker.step(generate("  two  words \n"));
    assert_eq!(action, request("llama3", "  two  words \n", None));
}

#[test]
fn a_reply_is_delivered_trimmed_and_its_token_kept() {
    let mut worker = worker();
    worker.step(generate("Hello"));
    let action = worker.step(success(" Hi there! ", Some(vec![1, 2, 3])));
    assert_eq!(action, WorkerAction::Deliver { text: "Hi there!".to_string() });
    assert_eq!(worker.state(), WorkerState::Idle);
    assert_eq!(worker.continuation(), &Some(ContinuationToken::new(vec![1, 2, 3])));
}

#[test]
fn the_next_request_carries_the_token_of_the_last_reply() {
    let mut worker = worker();
    worker.step(generate("one"));
    worker.step(success("1", Some(vec![10, -20, 30])));
    assert_eq!(worker.step(generate("two")), request("llama3", "two", Some(vec![10, -20, 30])));
    worker.step(success("2", Some(vec![7])));
    assert_eq!(worker.step(generate("three")), request("llama3", "three", Some(vec![7])));
    assert_eq!(worker.continuation(), &Some(ContinuationToken::new(vec![7])));
}

#[test]
fn a_reply_without_token_clears_the_token() {
    let mut worker = worker();
    worker.step(generate("one"));
    worker.step(success("1", Some(vec![5])));
    worker.step(generate("two"));
    assert_eq!(worker.step(success("2", None)), WorkerAction::Deliver { text: "2".to_string() });
    assert_eq!(worker.continuation(), &None);
    assert_eq!(worker.step(generate("three")), request("llama3", "three", None));
}

#[test]
fn an_empty_token_is_a_token() {
    let mut worker = worker();
    worker.step(generate("one"));
    worker.step(success("1", Some(vec![])));
    assert_eq!(worker.continuation(), &Some(ContinuationToken::new(vec![])));
    assert_eq!(worker.step(generate("two")), request("llama3", "two", Some(vec![])));
}

#[test]
fn a_failure_is_reported_and_leaves_the_token_alone() {
    let mut worker = worker();
    worker.step(generate("one"));
    worker.step(success("1", Some(vec![4, 2])));
    worker.step(generate("two"));
    let action = worker.step(failure("connection refused"));
    assert_eq!(
        action,
        WorkerAction::Report { error: InferenceError::new("connection refused".to_string()) }
    );
    assert_eq!(worker.state(), WorkerState::Idle);
    assert_eq!(worker.continuation(), &Some(ContinuationToken::new(vec![4, 2])));
    assert_eq!(worker.step(generate("three")), request("llama3", "three", Some(vec![4, 2])));
}

#[test]
fn a_failure_on_the_first_call_keeps_the_loop_alive() {
    let mut worker = worker();
    worker.step(generate("one"));
    let action = worker.step(failure("malformed response"));
    assert_eq!(
        action,
        WorkerAction::Report { error: InferenceError::new("malformed response".to_string()) }
    );
    assert_eq!(worker.state(), WorkerState::Idle);
    assert_eq!(worker.continuation(), &None);
    assert_eq!(worker.step(generate("again")), request("llama3", "again", None));
}

#[test]
fn a_message_during_a_call_is_handed_back() {
    let mut worker = worker();
    worker.step(generate("A"));
    let action = worker.step(generate("B"));
    assert_eq!(
        action,
        WorkerAction::Defer { message: OllamaMessage::Generate { text: "B".to_string() } }
    );
    assert_eq!(worker.state(), WorkerState::Generating);
    let action = worker.step(WorkerEvent::Received(OllamaMessage::Quit));
    assert_eq!(action, WorkerAction::Defer { message: OllamaMessage::Quit });
    assert_eq!(worker.state(), WorkerState::Generating);
    assert_eq!(worker.step(WorkerEvent::Disconnected), WorkerAction::Ignore);
    assert_eq!(worker.state(), WorkerState::Generating);
}

#[test]
fn an_outcome_without_a_call_is_ignored() {
    let mut worker = worker();
    assert_eq!(worker.step(success("stray", Some(vec![9]))), WorkerAction::Ignore);
    assert_eq!(worker.state(), WorkerState::Idle);
    assert_eq!(worker.continuation(), &None);
    assert_eq!(worker.step(failure("stray")), WorkerAction::Ignore);
    assert_eq!(worker.state(), WorkerState::Idle);
}

#[test]
fn quit_ends_the_loop_before_any_call() {
    let mut worker = worker();
    assert_eq!(worker.step(WorkerEvent::Received(OllamaMessage::Quit)), WorkerAction::Stop);
    assert_eq!(worker.state(), WorkerState::Terminated);
}

#[test]
fn quit_ends_the_loop_after_a_call() {
    let mut worker = worker();
    worker.step(generate("one"));
    worker.step(success("1", Some(vec![1])));
    assert_eq!(worker.step(WorkerEvent::Received(OllamaMessage::Quit)), WorkerAction::Stop);
    assert_eq!(worker.state(), WorkerState::Terminated);
    assert_eq!(worker.continuation(), &Some(ContinuationToken::new(vec![1])));
}

#[test]
fn quit_sent_during_a_call_ends_the_loop_once_the_call_is_over() {
    let mut worker = worker();
    worker.step(generate("one"));
    let deferred = match worker.step(WorkerEvent::Received(OllamaMessage::Quit)) {
        WorkerAction::Defer { message } => message,
        other => panic!("expected the message back, got {:?}", other),
    };
    assert_eq!(worker.step(success("1", None)), WorkerAction::Deliver { text: "1".to_string() });
    assert_eq!(worker.step(WorkerEvent::Received(deferred)), WorkerAction::Stop);
    assert_eq!(worker.state(), WorkerState::Terminated);
}

#[test]
fn a_closed_queue_ends_the_loop() {
    let mut worker = worker();
    assert_eq!(worker.step(WorkerEvent::Disconnected), WorkerAction::Stop);
    assert_eq!(worker.state(), WorkerState::Terminated);
}

#[test]
fn nothing_is_processed_after_the_end() {
    let mut worker = worker();
    worker.step(generate("one"));
    worker.step(success("1", Some(vec![3])));
    worker.step(WorkerEvent::Received(OllamaMessage::Quit));
    for _ in 0..3 {
        assert_eq!(worker.step(WorkerEvent::Received(OllamaMessage::Quit)), WorkerAction::Stop);
        assert_eq!(worker.step(generate("late")), WorkerAction::Stop);
        assert_eq!(worker.step(success("late", Some(vec![8]))), WorkerAction::Stop);
        assert_eq!(worker.step(failure("late")), WorkerAction::Stop);
        assert_eq!(worker.step(WorkerEvent::Disconnected), WorkerAction::Stop);
        assert_eq!(worker.state(), WorkerState::Terminated);
        assert_eq!(worker.continuation(), &Some(ContinuationToken::new(vec![3])));
    }
}

#[test]
fn token_round_trips_through_its_parts() {
    let token = ContinuationToken::new(vec![i32::MIN, -1, 0, 1, i32::MAX]);
    assert_eq!(token.tokens(), &vec![i32::MIN, -1, 0, 1, i32::MAX]);
    let copy = token.clone();
    assert_eq!(copy, token);
    assert_eq!(copy.into_tokens(), vec![i32::MIN, -1, 0, 1, i32::MAX]);
}

#[test]
fn inference_error_keeps_its_message() {
    let error = InferenceError::new("An error occurred with ollama-rs: timeout".to_string());
    assert_eq!(error.message(), "An error occurred with ollama-rs: timeout");
}
