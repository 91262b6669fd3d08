use vstd::prelude::*;

use super::message::{Message, Status};
use super::thread::Thread;

verus! {

/// The kinds of receipt that a contact's device sends back.
#[derive(Debug, Clone, Copy, PartialEq, Eq)]
pub enum ReceiptKind {
    Delivery,
    Read,
    Viewed,
}

/// What a received envelope carries, as far as this client reads it.
#[derive(Debug, Clone)]
pub enum ContentBody {
    /// A data message, with its text body if it has one.
    DataMessage { body: Option<String> },
    /// A sync message that reports a message sent from another device of the
    /// account, with the text body of that message if it has one.
    SentSync { body: Option<String> },
    /// A receipt for the messages sent at the given timestamps.
    Receipt { kind: ReceiptKind, timestamps: Vec<u64> },
    /// Anything else.
    Other,
}

/// A received (or stored) envelope: when it was sent, by whom, the
/// conversation it belongs to (if it belongs to one) and what it carries.
#[derive(Debug, Clone)]
pub struct Content {
    pub timestamp: u64,
    pub sender: u128,
    pub thread: Option<Thread>,
    pub body: ContentBody,
}

/// The text body that `content` carries, if it carries one.
pub open spec fn spec_text_body(content: Content) -> Option<String> {
    match content.body {
        ContentBody::DataMessage { body } => body,
        ContentBody::SentSync { body } => body,
        _ => None,
    }
}

/// The conversation and text message that `content` carries, if it carries
/// both.
pub open spec fn spec_from_content(content: Content) -> Option<(Thread, Message)> {
    match (content.thread, spec_text_body(content)) {
        (Some(thread), Some(body)) => Some((
            thread,
            Message { timestamp: content.timestamp, sender: content.sender, body, status: None },
        )),
        _ => None,
    }
}

/// The conversation and the message that a received envelope carries: a data
/// message with a body, or the copy of a message sent from another device;
/// `None` for anything else.
pub fn from_content(content: &Content) -> (mapped: Option<(Thread, Message)>)
    ensures
        mapped == spec_from_content(*content),
{
    let thread = match content.thread {
        Some(thread) => thread,
        None => return None,
    };
    let body = match &content.body {
        ContentBody::DataMessage { body } => match body {
            Some(text) => text.clone(),
            None => return None,
        },
        ContentBody::SentSync { body } => match body {
            Some(text) => text.clone(),
            None => return None,
        },
        _ => return None,
    };
    Some((
        thread,
        Message { timestamp: content.timestamp, sender: content.sender, body, status: None },
    ))
}

/// The statuses that a receipt reports, for the messages sent at its
/// timestamps; `None` for anything that is not a delivery or read receipt.
pub open spec fn spec_receipt(content: Content) -> Option<(Seq<u64>, Status)> {
    match content.body {
        ContentBody::Receipt { kind, timestamps } => match kind {
            ReceiptKind::Delivery => Some((timestamps@, Status::Delivered)),
            ReceiptKind::Read => Some((timestamps@, Status::Read)),
            ReceiptKind::Viewed => None,
        },
        _ => None,
    }
}

/// The timestamps and status that a delivery or read receipt reports.
pub fn receipt_from_content(content: &Content) -> (receipt: Option<(Vec<u64>, Status)>)
    ensures
        match receipt {
            Some((timestamps, status)) => spec_receipt(*content) == Some((timestamps@, status)),
            None => spec_receipt(*content) is None,
        },
{
    match &content.body {
        ContentBody::Receipt { kind, timestamps } => {
            let status = match kind {
                ReceiptKind::Delivery => Status::Delivered,
                ReceiptKind::Read => Status::Read,
                ReceiptKind::Viewed => return None,
            };
            Some((timestamps.clone(), status))
        },
        _ => None,
    }
}

} // verus!
