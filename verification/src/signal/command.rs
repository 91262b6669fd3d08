use vstd::prelude::*;

use crate::data::Thread;

verus! {

/// What the user interface asks the Signal worker to do.
#[derive(Debug, Clone)]
pub enum Command {
    /// Send a text message, stamped with the time it was written.
    SendText { thread: Thread, body: String, timestamp: u64 },
    /// Load the stored history of a conversation.
    LoadThread(Thread),
}

} // verus!
