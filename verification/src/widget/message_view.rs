use vstd::prelude::*;

use crate::data::contact::spec_contact_name;
use crate::data::ident::{short_uuid, spec_short_uuid};
use crate::data::{contact_name, Contact, Status};
use crate::text::to_string;

verus! {

/// The label shown after a message of one's own for its status.
pub open spec fn spec_status_label(status: Status) -> Seq<char> {
    match status {
        Status::Sending => "sending…"@,
        Status::Failed => "failed to send"@,
        Status::Sent => "sent"@,
        Status::Delivered => "delivered"@,
        Status::Read => "read"@,
    }
}

/// The label shown after a message of one's own for its status.
pub fn status_label(status: Status) -> (label: &'static str)
    ensures
        label@ == spec_status_label(status),
{
    match status {
        Status::Sending => "sending…",
        Status::Failed => "failed to send",
        Status::Sent => "sent",
        Status::Delivered => "delivered",
        Status::Read => "read",
    }
}

/// The name shown for the sender of a message: "You" for one's own
/// messages, else the contact's name, else the first eight characters of the
/// sender's UUID.
pub open spec fn spec_sender_name(sender: u128, aci: u128, contacts: Seq<Contact>) -> Seq<char> {
    if sender == aci {
        "You"@
    } else {
        match spec_contact_name(contacts, sender) {
            Some(name) => name,
            None => spec_short_uuid(sender),
        }
    }
}

/// The name shown for the sender of a message.
pub fn sender_name(sender: u128, aci: u128, contacts: &[Contact]) -> (name: String)
    ensures
        name@ == spec_sender_name(sender, aci, contacts@),
{
    if sender == aci {
        return to_string("You");
    }
    match contact_name(contacts, sender) {
        Some(name) => to_string(name),
        None => short_uuid(sender),
    }
}

} // verus!
