use vstd::prelude::*;

use crate::data::Thread;
use crate::text::{spec_trim, to_string, trim};

verus! {

/// A chat open in a pane: its conversation and the text being typed.
#[derive(Debug, Clone)]
pub struct Chat {
    pub thread: Thread,
    pub input: String,
}

/// What the user does in a chat.
#[derive(Debug, Clone)]
pub enum Message {
    /// The text in the input field changed to this.
    InputChanged(String),
    /// The user pressed enter in the input field.
    Submit,
}

/// What a chat asks the rest of the client to do.
#[derive(Debug, Clone)]
pub enum Action {
    /// Nothing to do.
    Nothing,
    /// Send this text to the chat's conversation.
    SendText(String),
}

/// The effect of `message` on a chat, from `before` to `after`, and the
/// action it asks for. A new text replaces the input. Submitting sends the
/// input without its surrounding whitespace, and clears it, unless nothing
/// but whitespace was typed: then nothing happens.
pub open spec fn updated(before: Chat, after: Chat, message: Message, action: Action) -> bool {
    &&& after.thread == before.thread
    &&& match message {
        Message::InputChanged(text) => {
            &&& after.input_text() == text@
            &&& action is Nothing
        },
        Message::Submit => {
            let body = spec_trim(before.input_text());
            if body.len() == 0 {
                &&& after.input_text() == before.input_text()
                &&& action is Nothing
            } else {
                &&& after.input_text() == Seq::<char>::empty()
                &&& action matches Action::SendText(sent) && sent@ == body
            }
        },
    }
}

impl Chat {
    /// The text being typed.
    pub open spec fn input_text(&self) -> Seq<char> {
        self.input@
    }

    /// A chat on `thread`, with nothing typed yet.
    pub fn new(thread: Thread) -> (chat: Chat)
        ensures
            chat.thread == thread,
            chat.input_text() == Seq::<char>::empty(),
    {
        Chat { thread, input: String::new() }
    }

    /// The text being typed.
    pub fn input(&self) -> (input: &str)
        ensures
            input@ == self.input_text(),
    {
        self.input.as_str()
    }

    /// Applies what the user did (see `updated`).
    pub fn update(&mut self, message: Message) -> (action: Action)
        ensures
            updated(*old(self), *final(self), message, action),
    {
        match message {
            Message::InputChanged(input) => {
                self.input = input;
                Action::Nothing
            },
            Message::Submit => {
                let body = to_string(trim(self.input.as_str()));
                if body.as_str().is_empty() {
                    Action::Nothing
                } else {
                    self.input = String::new();
                    Action::SendText(body)
                }
            },
        }
    }
}

} // verus!
