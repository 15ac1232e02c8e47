use std::collections::VecDeque;

use ollama_chat::config::load_configuration;
use ollama_chat::conversation::{Author, Conversation};
use ollama_chat::inference::{
    ContinuationToken, GenerationRequest, GenerationResult, InferenceError,
};
use ollama_chat::ollama::{OllamaMessage, WorkerAction, WorkerEvent, WorkerLoop, WorkerState};

/// A call that the stand-in for the inference client has seen.
#[derive(Debug, PartialEq)]
struct Call {
    model: String,
    prompt: String,
    continuation: Option<Vec<i32>>,
}

/// The two sides of a session, wired as the program wires them, with a
/// scripted stand-in for the inference client.
struct Harness {
    conversation: Conversation,
    queue: VecDeque<OllamaMessage>,
    worker: WorkerLoop,
    calls: Vec<Call>,
    in_flight: usize,
    most_in_flight: usize,
    reported: Vec<String>,
}

impl Harness {
    fn new() -> Harness {
        let configuration = load_configuration(
            Some("localhost".to_string()),
            Some("11434".to_string()),
            Some("llama3".to_string()),
        )
        .unwrap();
        Harness {
            conversation: Conversation::new(),
            queue: VecDeque::new(),
            worker: WorkerLoop::new(&configuration),
            calls: Vec::new(),
            in_flight: 0,
            most_in_flight: 0,
            reported: Vec::new(),
        }
    }

    fn submit(&mut self, text: &str) {
        let request = self.conversation.submit(text.to_string());
        self.queue.push_back(request);
    }

    fn shutdown(&mut self) {
        self.queue.push_back(OllamaMessage::Quit);
    }

    /// Lets the worker loop take the oldest message, if it is waiting for one.
    fn receive(&mut self) -> bool {
        if self.worker.state() != WorkerState::Idle {
            return false;
        }
        let Some(message) = self.queue.pop_front() else {
            return false;
        };
        match self.worker.step(WorkerEvent::Received(message)) {
            WorkerAction::Generate { model, request } => {
                let GenerationRequest { prompt, continuation } = request;
                self.calls.push(Call {
                    model,
                    prompt,
                    continuation: continuation.map(ContinuationToken::into_tokens),
                });
                self.in_flight += 1;
                self.most_in_flight = self.most_in_flight.max(self.in_flight);
            }
            WorkerAction::Stop => {}
            other => panic!("unexpected answer to a message: {:?}", other),
        }
        true
    }

    /// Ends the call in flight and runs what the worker loop posts.
    fn complete(&mut self, outcome: Result<GenerationResult, InferenceError>) {
        assert_eq!(self.in_flight, 1);
        self.in_flight -= 1;
        match self.worker.step(WorkerEvent::Completed(outcome)) {
            WorkerAction::Deliver { text } => self.conversation.receive(text),
            WorkerAction::Report { error } => self.reported.push(error.message().to_string()),
            other => panic!("unexpected answer to an outcome: {:?}", other),
        }
    }

    fn reply(&mut self, text: &str, tokens: Option<Vec<i32>>) {
        self.complete(Ok(GenerationResult {
            text: text.to_string(),
            new_continuation: tokens.map(ContinuationToken::new),
        }));
    }

    fn fail(&mut self, message: &str) {
        self.complete(Err(InferenceError::new(message.to_string())));
    }

    fn shown(&self) -> Vec<(Author, String)> {
        (0..self.conversation.len())
            .map(|i| {
                let message = self.conversation.get(i).unwrap();
                (message.author(), message.text().to_string())
            })
            .collect()
    }
}

fn user(text: &str) -> (Author, String) {
    (Author::User, text.to_string())
}

fn assistant(text: &str) -> (Author, String) {
    (Author::Assistant, text.to_string())
}

fn call(prompt: &str, continuation: Option<Vec<i32>>) -> Call {
    Call { model: "llama3".to_string(), prompt: prompt.to_string(), continuation }
}

#[test]
fn hello_is_shown_at_once_and_answered_trimmed() {
    let mut session = Harness::new();
    session.submit("Hello");
    assert_eq!(session.shown(), vec![user("Hello")]);
    assert!(session.receive());
    assert_eq!(session.calls, vec![call("Hello", None)]);
    assert_eq!(session.shown(), vec![user("Hello")]);
    session.reply(" Hi there! ", Some(vec![11, 22, 33]));
    assert_eq!(session.shown(), vec![user("Hello"), assistant("Hi there!")]);
    assert_eq!(session.worker.continuation(), &Some(ContinuationToken::new(vec![11, 22, 33])));
    assert_eq!(session.worker.state(), WorkerState::Idle);
}

#[test]
fn two_quick_submissions_are_served_one_after_the_other() {
    let mut session = Harness::new();
    session.submit("A");
    session.submit("B");
    assert_eq!(session.shown(), vec![user("A"), user("B")]);
    assert!(session.receive());
    assert!(!session.receive());
    assert_eq!(session.calls, vec![call("A", None)]);
    assert_eq!(session.queue.len(), 1);
    session.reply("a", Some(vec![1]));
    assert!(session.receive());
    assert_eq!(session.calls, vec![call("A", None), call("B", Some(vec![1]))]);
    session.reply("b", Some(vec![1, 2]));
    assert!(!session.receive());
    assert_eq!(session.most_in_flight, 1);
    assert_eq!(
        session.shown(),
        vec![user("A"), user("B"), assistant("a"), assistant("b")]
    );
    assert_eq!(session.worker.continuation(), &Some(ContinuationToken::new(vec![1, 2])));
}

#[test]
fn turns_taken_in_sequence_alternate() {
    let mut session = Harness::new();
    let turns = [("m1", " r1"), ("m2", "r2\n"), ("m3", "\tr3 "), ("m4", "r4")];
    for (n, (text, reply)) in turns.iter().enumerate() {
        session.submit(text);
        assert!(session.receive());
        session.reply(reply, Some(vec![n as i32]));
    }
    assert_eq!(
        session.shown(),
        vec![
            user("m1"),
            assistant("r1"),
            user("m2"),
            assistant("r2"),
            user("m3"),
            assistant("r3"),
            user("m4"),
            assistant("r4"),
        ]
    );
    assert_eq!(
        session.calls,
        vec![
            call("m1", None),
            call("m2", Some(vec![0])),
            call("m3", Some(vec![1])),
            call("m4", Some(vec![2])),
        ]
    );
    assert_eq!(session.most_in_flight, 1);
}

#[test]
fn a_failed_call_is_reported_and_the_next_call_reuses_the_token() {
    let mut session = Harness::new();
    session.submit("one");
    session.receive();
    session.reply("1", Some(vec![5, 6]));
    session.submit("two");
    session.receive();
    session.fail("server error");
    session.submit("three");
    session.receive();
    session.reply("3", Some(vec![7]));
    session.submit("four");
    session.receive();
    assert_eq!(
        session.calls,
        vec![
            call("one", None),
            call("two", Some(vec![5, 6])),
            call("three", Some(vec![5, 6])),
            call("four", Some(vec![7])),
        ]
    );
    assert_eq!(session.reported, vec!["server error".to_string()]);
    assert_eq!(
        session.shown(),
        vec![user("one"), assistant("1"), user("two"), user("three"), assistant("3"), user("four")]
    );
}

#[test]
fn many_submissions_at_once_never_overlap() {
    let mut session = Harness::new();
    for n in 0..20 {
        session.submit(&format!("q{}", n));
    }
    let mut served = 0;
    loop {
        let took = session.receive();
        assert!(!session.receive());
        if !took {
            break;
        }
        assert_eq!(session.in_flight, 1);
        session.reply(&format!("a{}", served), Some(vec![served]));
        served += 1;
    }
    assert_eq!(served, 20);
    assert_eq!(session.most_in_flight, 1);
    for (n, made) in session.calls.iter().enumerate() {
        let expected = if n == 0 { None } else { Some(vec![n as i32 - 1]) };
        assert_eq!(made, &call(&format!("q{}", n), expected));
    }
}

#[test]
fn shutdown_before_any_call_ends_the_loop() {
    let mut session = Harness::new();
    session.shutdown();
    assert!(session.receive());
    assert_eq!(session.worker.state(), WorkerState::Terminated);
    assert!(session.calls.is_empty());
}

#[test]
fn shutdown_during_a_call_waits_for_the_call() {
    let mut session = Harness::new();
    session.submit("A");
    session.receive();
    session.shutdown();
    assert!(!session.receive());
    assert_eq!(session.worker.state(), WorkerState::Generating);
    session.reply("a", None);
    assert_eq!(session.shown(), vec![user("A"), assistant("a")]);
    assert!(session.receive());
    assert_eq!(session.worker.state(), WorkerState::Terminated);
}

#[test]
fn shutdown_after_a_call_ends_the_loop() {
    let mut session = Harness::new();
    session.submit("A");
    session.receive();
    session.reply("a", Some(vec![1]));
    session.shutdown();
    assert!(session.receive());
    assert_eq!(session.worker.state(), WorkerState::Terminated);
    assert_eq!(session.calls.len(), 1);
}

#[test]
fn shutdown_twice_is_shutdown_once() {
    let mut once = Harness::new();
    let mut twice = Harness::new();
    for session in [&mut once, &mut twice] {
        session.submit("A");
        session.submit("B");
        session.receive();
        session.shutdown();
    }
    twice.shutdown();
    for session in [&mut once, &mut twice] {
        session.reply("a", Some(vec![1]));
        session.receive();
        session.reply("b", Some(vec![2]));
        while session.receive() {}
    }
    assert_eq!(once.worker.state(), WorkerState::Terminated);
    assert_eq!(twice.worker.state(), WorkerState::Terminated);
    assert_eq!(once.calls, twice.calls);
    assert_eq!(once.shown(), twice.shown());
    assert_eq!(once.worker.continuation(), twice.worker.continuation());
    assert_eq!(once.queue.len(), 0);
    assert_eq!(twice.queue, VecDeque::from(vec![OllamaMessage::Quit]));
}

#[test]
fn requests_behind_a_shutdown_are_never_served() {
    let mut session = Harness::new();
    session.submit("A");
    session.shutdown();
    session.submit("B");
    assert!(session.receive());
    session.reply("a", Some(vec![1]));
    assert!(session.receive());
    assert_eq!(session.worker.state(), WorkerState::Terminated);
    assert!(!session.receive());
    assert_eq!(session.calls, vec![call("A", None)]);
    assert_eq!(session.shown(), vec![user("A"), user("B"), assistant("a")]);
    assert_eq!(
        session.queue,
        VecDeque::from(vec![OllamaMessage::Generate { text: "B".to_string() }])
    );
}

#[test]
fn a_missing_port_stops_the_start() {
    let error =
        load_configuration(Some("localhost".to_string()), None, Some("llama3".to_string()))
            .unwrap_err();
    assert_eq!(error.variable(), "OLLAMA_PORT");
    assert!(error.message().contains("OLLAMA_PORT"));
}
