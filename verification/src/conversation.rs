//! The displayed conversation.
//!
//! The conversation belongs to the UI context. It only ever grows: the user's
//! input is appended the moment it is submitted, the assistant's reply when
//! the worker loop's result has been brought back to the UI context.

use crate::ollama::{OllamaMessage, OllamaMessageView};
use vstd::prelude::*;

verus! {

/// Who wrote a message.
#[derive(Clone, Copy, Debug, PartialEq, Eq, Structural)]
pub enum Author {
    User,
    Assistant,
}

/// One entry of the conversation. It does not change once made.
#[derive(Debug, PartialEq, Eq)]
pub struct Message {
    text: String,
    author: Author,
}

/// A message as contracts see it.
pub struct MessageView {
    pub text: Seq<char>,
    pub author: Author,
}

impl View for Message {
    type V = MessageView;

    closed spec fn view(&self) -> MessageView {
        MessageView { text: self.text@, author: self.author }
    }
}

impl Message {
    /// The message `text` written by `author`.
    pub fn new(text: String, author: Author) -> (message: Self)
        ensures
            message@ == (MessageView { text: text@, author }),
    {
        Message { text, author }
    }

    /// What the message says.
    pub fn text(&self) -> (text: &str)
        ensures
            text@ == self@.text,
    {
        self.text.as_str()
    }

    /// Who wrote the message.
    pub fn author(&self) -> (author: Author)
        ensures
            author == self@.author,
    {
        self.author
    }
}

/// The conversation `shown` after the user has submitted `text`.
pub open spec fn submitted(shown: Seq<MessageView>, text: Seq<char>) -> Seq<MessageView> {
    shown.push(MessageView { text, author: Author::User })
}

/// The conversation `shown` after the assistant's reply `text` has arrived.
pub open spec fn received(shown: Seq<MessageView>, text: Seq<char>) -> Seq<MessageView> {
    shown.push(MessageView { text, author: Author::Assistant })
}

/// The messages of a conversation, oldest first.
#[derive(Debug, PartialEq, Eq)]
pub struct Conversation {
    messages: Vec<Message>,
}

impl View for Conversation {
    type V = Seq<MessageView>;

    closed spec fn view(&self) -> Seq<MessageView> {
        Seq::new(self.messages@.len(), |i: int| self.messages@[i]@)
    }
}

impl Conversation {
    /// A conversation in which nothing has been said.
    pub fn new() -> (conversation: Self)
        ensures
            conversation@ == Seq::<MessageView>::empty(),
    {
        let conversation = Conversation { messages: Vec::new() };
        assert(conversation@ =~= Seq::<MessageView>::empty());
        conversation
    }

    /// The number of messages shown.
    pub fn len(&self) -> (len: usize)
        ensures
            len == self@.len(),
    {
        self.messages.len()
    }

    /// The message at position `index`, counted from the oldest, if there is one.
    pub fn get(&self, index: usize) -> (message: Option<&Message>)
        ensures
            index < self@.len() ==> message is Some && message->0@ == self@[index as int],
            index >= self@.len() ==> message is None,
    {
        if index < self.messages.len() {
            Some(&self.messages[index])
        } else {
            None
        }
    }

    /// Takes the user's input: shows it at once, and returns the request to
    /// put on the worker loop's queue.
    pub fn submit(&mut self, text: String) -> (request: OllamaMessage)
        ensures
            final(self)@ == submitted(old(self)@, text@),
            request@ == (OllamaMessageView::Generate { text: text@ }),
    {
        let shown = text.clone();
        self.messages.push(Message { text: shown, author: Author::User });
        assert(self@ =~= submitted(old(self)@, text@));
        OllamaMessage::Generate { text }
    }

    /// Shows the assistant's reply `text`. To be run on the UI context.
    pub fn receive(&mut self, text: String)
        ensures
            final(self)@ == received(old(self)@, text@),
    {
        self.messages.push(Message { text, author: Author::Assistant });
        assert(self@ =~= received(old(self)@, text@));
    }
}

} // verus!
