//! The core of a desktop chat front end for a language model that a local
//! Ollama server hosts.
//!
//! A chat window must stay responsive while a reply is being generated, so
//! the program has two sides. The UI context shows the conversation and takes
//! the user's input; one background task, the worker loop, makes the
//! generation calls, one at a time, and carries the server's continuation
//! token from each reply to the next request. The two sides share a queue of
//! messages and nothing else.
//!
//! This crate holds what the two sides decide, free of any UI toolkit,
//! runtime or network client:
//!
//! - [`config`]: the connection settings, read from the values of the
//!   environment variables;
//! - [`conversation`]: the messages shown, and what submitting and receiving
//!   do to them;
//! - [`inference`]: what is asked of the generation endpoint and what it
//!   answers;
//! - [`ollama`]: the worker loop as a state machine from events to actions;
//! - [`text`]: trimming of replies;
//! - [`session`]: both sides and the queue as one transition system, with the
//!   proofs of what holds of every run: calls never overlap, each call
//!   carries the token of the one before, texts are served first in, first
//!   out, and a shutdown request ends the loop.

pub mod config;
pub mod conversation;
pub mod inference;
pub mod ollama;
pub mod session;
pub mod text;
