pub mod chat;

use vstd::prelude::*;

pub use chat::Chat;

use crate::data::Thread;

verus! {

/// One pane of the pane grid: empty, or showing a chat.
#[derive(Debug, Clone)]
pub struct Pane {
    pub buffer: Buffer,
}

/// What a pane shows.
#[derive(Debug, Clone)]
pub enum Buffer {
    Empty,
    Chat(Chat),
}

impl Pane {
    /// The conversation the pane shows, if it shows one.
    pub open spec fn spec_thread(&self) -> Option<Thread> {
        match self.buffer {
            Buffer::Empty => None,
            Buffer::Chat(chat) => Some(chat.thread),
        }
    }

    /// A pane that shows nothing.
    pub fn empty() -> (pane: Pane)
        ensures
            pane.buffer is Empty,
    {
        Pane { buffer: Buffer::Empty }
    }

    /// A pane with a new chat on `thread`.
    pub fn chat(thread: Thread) -> (pane: Pane)
        ensures
            pane.buffer matches Buffer::Chat(chat) && chat.thread == thread
                && chat.input_text() == Seq::<char>::empty(),
    {
        Pane { buffer: Buffer::Chat(Chat::new(thread)) }
    }

    /// The conversation the pane shows, if it shows one.
    pub fn thread(&self) -> (thread: Option<&Thread>)
        ensures
            match thread {
                Some(t) => self.spec_thread() == Some(*t),
                None => self.spec_thread() is None,
            },
    {
        match &self.buffer {
            Buffer::Chat(chat) => Some(&chat.thread),
            Buffer::Empty => None,
        }
    }

    /// Whether the pane shows `thread`.
    pub fn shows(&self, thread: &Thread) -> (shows: bool)
        ensures
            shows == (self.spec_thread() == Some(*thread)),
    {
        match &self.buffer {
            Buffer::Chat(chat) => chat.thread.same(thread),
            Buffer::Empty => false,
        }
    }

    /// Passes what the user did to the pane's chat; an empty pane does
    /// nothing.
    pub fn update(&mut self, message: chat::Message) -> (action: chat::Action)
        ensures
            match old(self).buffer {
                Buffer::Empty => *final(self) == *old(self) && action is Nothing,
                Buffer::Chat(before) => final(self).buffer matches Buffer::Chat(after)
                    && chat::updated(before, after, message, action),
            },
    {
        match &mut self.buffer {
            Buffer::Chat(chat) => chat.update(message),
            Buffer::Empty => chat::Action::Nothing,
        }
    }
}

} // verus!
