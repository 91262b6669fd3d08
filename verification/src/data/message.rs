use vstd::prelude::*;

verus! {

/// How far an outgoing message has got, from being sent to being read.
/// The variants are declared in the order in which a message advances.
#[derive(Debug, Clone, Copy, PartialEq, Eq, PartialOrd, Ord, Hash)]
pub enum Status {
    Sending,
    Failed,
    Sent,
    Delivered,
    Read,
}

impl Status {
    /// The position of the status in the order of declaration.
    pub open spec fn rank(self) -> int {
        match self {
            Status::Sending => 0,
            Status::Failed => 1,
            Status::Sent => 2,
            Status::Delivered => 3,
            Status::Read => 4,
        }
    }

    /// Whether `self` comes before `other` in the order of declaration,
    /// the order that the derived `Ord` follows.
    pub fn precedes(self, other: Status) -> (before: bool)
        ensures
            before == (self.rank() < other.rank()),
    {
        rank_of(self) < rank_of(other)
    }
}

fn rank_of(status: Status) -> (rank: u8)
    ensures
        rank as int == status.rank(),
{
    match status {
        Status::Sending => 0,
        Status::Failed => 1,
        Status::Sent => 2,
        Status::Delivered => 3,
        Status::Read => 4,
    }
}

/// One text message of a conversation.
#[derive(Debug, Clone)]
pub struct Message {
    /// The time it was sent, in milliseconds since the Unix epoch; with the
    /// sender, it identifies the message.
    pub timestamp: u64,
    /// The UUID of the account that sent it.
    pub sender: u128,
    pub body: String,
    /// For a message of one's own, how far it has got; `None` for others.
    pub status: Option<Status>,
}

impl Message {
    /// A copy of the message, equal to it.
    pub fn duplicate(&self) -> (copy: Message)
        ensures
            copy == *self,
    {
        Message {
            timestamp: self.timestamp,
            sender: self.sender,
            body: self.body.clone(),
            status: self.status,
        }
    }
}

} // verus!
