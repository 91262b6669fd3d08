use vstd::prelude::*;

use tokio::sync::mpsc::UnboundedSender;

use super::Command;
use crate::data::{Contact, Group, Message, Status, Thread};

verus! {

/// The sending end of an unbounded channel of `tokio`. Verus sees nothing
/// inside it.
#[verifier::external_type_specification]
#[verifier::external_body]
#[verifier::reject_recursive_types(T)]
pub struct ExUnboundedSender<T>(UnboundedSender<T>);

/// `Clone::clone` of `tokio`'s `UnboundedSender`: another sender on the same
/// channel. Nothing is stated of it; it lets an event be cloned.
pub assume_specification<T>[ <UnboundedSender<T> as Clone>::clone ](
    sender: &UnboundedSender<T>,
) -> UnboundedSender<T>;

/// What the Signal worker reports to the user interface.
#[derive(Debug, Clone)]
pub enum Event {
    /// The worker runs and takes commands through this channel.
    Ready(UnboundedSender<Command>),
    /// The provisioning URL that the phone must scan to link this device.
    LinkUrl(String),
    /// The device is linked to the account `aci`.
    Linked { aci: u128 },
    /// The contacts and groups of the account.
    Contacts { contacts: Vec<Contact>, groups: Vec<Group> },
    /// The stored messages of a conversation.
    History { thread: Thread, messages: Vec<Message> },
    /// A message arrived in a conversation.
    Message { thread: Thread, message: Message },
    /// The messages sent at these timestamps reached this status.
    MessageStatus { timestamps: Vec<u64>, status: Status },
    /// The avatar picture of a conversation, as image bytes.
    Avatar { thread: Thread, bytes: Vec<u8> },
    /// The latest stored message of a conversation.
    Preview { thread: Thread, message: Message },
    /// Something went wrong, for this reason.
    Error(String),
}

/// `UnboundedSender::send` of `tokio`: queues `command` for the worker, which
/// fails only when the worker has stopped. Whether it did is not known here.
#[verifier::external_body]
pub(crate) fn deliver(sender: &UnboundedSender<Command>, command: Command) {
    let _ = sender.send(command);
}

} // verus!
