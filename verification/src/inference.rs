//! Values exchanged with the inference client: what is asked of the
//! generation endpoint and what comes back.

use vstd::prelude::*;

verus! {

/// The server's encoding of the conversation so far. It is returned with a
/// reply and sent along with the next prompt; nothing here interprets it.
#[derive(Debug, PartialEq, Eq)]
pub struct ContinuationToken {
    tokens: Vec<i32>,
}

impl View for ContinuationToken {
    type V = Seq<i32>;

    closed spec fn view(&self) -> Seq<i32> {
        self.tokens@
    }
}

impl ContinuationToken {
    /// The token that the server encoded as `tokens`.
    pub fn new(tokens: Vec<i32>) -> (token: Self)
        ensures
            token@ == tokens@,
    {
        ContinuationToken { tokens }
    }

    /// The server's encoding of the token.
    pub fn tokens(&self) -> (tokens: &Vec<i32>)
        ensures
            tokens@ == self@,
    {
        &self.tokens
    }

    /// Gives the server's encoding back, to send it along with a request.
    pub fn into_tokens(self) -> (tokens: Vec<i32>)
        ensures
            tokens@ == self@,
    {
        self.tokens
    }
}

impl Clone for ContinuationToken {
    fn clone(&self) -> (copy: Self)
        ensures
            copy@ == self@,
    {
        let tokens = self.tokens.clone();
        assert(tokens@ =~= self.tokens@);
        ContinuationToken { tokens }
    }
}

/// An optional token as contracts see it.
pub open spec fn continuation_view(token: Option<ContinuationToken>) -> Option<Seq<i32>> {
    match token {
        Some(t) => Some(t@),
        None => None,
    }
}

/// Copies an optional token.
pub fn copy_continuation(token: &Option<ContinuationToken>) -> (copy: Option<ContinuationToken>)
    ensures
        continuation_view(copy) == continuation_view(*token),
{
    match token {
        Some(t) => Some(t.clone()),
        None => None,
    }
}

/// One turn's input to the generation endpoint.
#[derive(Debug, PartialEq, Eq)]
pub struct GenerationRequest {
    pub prompt: String,
    pub continuation: Option<ContinuationToken>,
}

/// A request as contracts see it.
pub struct GenerationRequestView {
    pub prompt: Seq<char>,
    pub continuation: Option<Seq<i32>>,
}

impl View for GenerationRequest {
    type V = GenerationRequestView;

    open spec fn view(&self) -> GenerationRequestView {
        GenerationRequestView {
            prompt: self.prompt@,
            continuation: continuation_view(self.continuation),
        }
    }
}

/// One turn's output of the generation endpoint.
#[derive(Debug, PartialEq, Eq)]
pub struct GenerationResult {
    pub text: String,
    pub new_continuation: Option<ContinuationToken>,
}

/// A result as contracts see it.
pub struct GenerationResultView {
    pub text: Seq<char>,
    pub new_continuation: Option<Seq<i32>>,
}

impl View for GenerationResult {
    type V = GenerationResultView;

    open spec fn view(&self) -> GenerationResultView {
        GenerationResultView {
            text: self.text@,
            new_continuation: continuation_view(self.new_continuation),
        }
    }
}

/// A generation call that did not produce a reply: the connection failed,
/// the response was malformed, or the server answered with an error.
#[derive(Debug, PartialEq, Eq)]
pub struct InferenceError {
    message: String,
}

impl View for InferenceError {
    type V = Seq<char>;

    closed spec fn view(&self) -> Seq<char> {
        self.message@
    }
}

impl InferenceError {
    /// The failure that the client describes as `message`.
    pub fn new(message: String) -> (error: Self)
        ensures
            error@ == message@,
    {
        InferenceError { message }
    }

    /// The client's description of what went wrong.
    pub fn message(&self) -> (message: &str)
        ensures
            message@ == self@,
    {
        self.message.as_str()
    }
}

/// How a generation call ended, as seen in contracts.
pub type OutcomeView = Result<GenerationResultView, Seq<char>>;

/// The view of how a generation call ended.
pub open spec fn outcome_view(outcome: Result<GenerationResult, InferenceError>) -> OutcomeView {
    match outcome {
        Ok(result) => Ok(result@),
        Err(error) => Err(error@),
    }
}

} // verus!
