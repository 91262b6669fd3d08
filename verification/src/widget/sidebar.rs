use vstd::prelude::*;

use crate::data::contact::spec_contact_name;
use crate::data::ident::{short_uuid as uuid_prefix, spec_short_uuid};
use crate::data::{contact_name, Contact, ContactId, Message, Thread};
use crate::text::{concat, newlines_to_spaces, replace_newlines, to_string};

verus! {

/// The line under a conversation in the sidebar for its latest message: the
/// body on one line, after "You: " for one's own messages and after the
/// sender's name (or "?") in a group.
pub open spec fn spec_preview_text(
    message: Option<Message>,
    thread: Thread,
    aci: u128,
    contacts: Seq<Contact>,
) -> Seq<char> {
    match message {
        None => Seq::empty(),
        Some(message) => {
            let body = newlines_to_spaces(message.body@);
            if message.sender == aci {
                "You: "@ + body
            } else if thread is Group {
                let name = match spec_contact_name(contacts, message.sender) {
                    Some(name) => name,
                    None => "?"@,
                };
                name + ": "@ + body
            } else {
                body
            }
        },
    }
}

/// The law of previews in the sidebar: the body is shown on one line (each
/// line feed becomes a space); one's own message is shown after "You: " in
/// every kind of conversation; someone else's is shown after their name and
/// ": " in a group, and alone in a conversation with a contact; no message
/// shows nothing.
pub proof fn lemma_preview_text_law(
    message: Message,
    thread: Thread,
    aci: u128,
    contacts: Seq<Contact>,
)
    ensures
        spec_preview_text(None, thread, aci, contacts) == Seq::<char>::empty(),
        message.sender == aci ==> spec_preview_text(Some(message), thread, aci, contacts) == "You: "@
            + Seq::new(
            message.body@.len(),
            |i: int| if message.body@[i] == '\n' { ' ' } else { message.body@[i] },
        ),
        message.sender != aci && thread is Contact ==> spec_preview_text(
            Some(message),
            thread,
            aci,
            contacts,
        ) == Seq::new(
            message.body@.len(),
            |i: int| if message.body@[i] == '\n' { ' ' } else { message.body@[i] },
        ),
        message.sender != aci && thread is Group && spec_contact_name(contacts, message.sender)
            is Some ==> spec_preview_text(Some(message), thread, aci, contacts) == spec_contact_name(
            contacts,
            message.sender,
        ).unwrap() + ": "@ + Seq::new(
            message.body@.len(),
            |i: int| if message.body@[i] == '\n' { ' ' } else { message.body@[i] },
        ),
{
    let line = Seq::new(
        message.body@.len(),
        |i: int| if message.body@[i] == '\n' { ' ' } else { message.body@[i] },
    );
    assert(newlines_to_spaces(message.body@) =~= line);
}

/// The preview of a conversation's latest message, as the sidebar shows it.
pub fn preview_text(
    message: Option<&Message>,
    thread: &Thread,
    aci: u128,
    contacts: &[Contact],
) -> (preview: String)
    ensures
        preview@ == spec_preview_text(
            match message {
                Some(m) => Some(*m),
                None => None,
            },
            *thread,
            aci,
            contacts@,
        ),
{
    let message = match message {
        Some(message) => message,
        None => return String::new(),
    };
    let body = replace_newlines(message.body.as_str());
    if message.sender == aci {
        concat("You: ", body.as_str())
    } else if let Thread::Group(_) = thread {
        let name = match contact_name(contacts, message.sender) {
            Some(name) => name,
            None => "?",
        };
        let head = concat(name, ": ");
        concat(head.as_str(), body.as_str())
    } else {
        body
    }
}

/// `value` cut to at most `max` characters: unchanged when it fits, else its
/// first `max - 1` characters followed by an ellipsis.
pub open spec fn spec_truncate(value: Seq<char>, max: nat) -> Seq<char> {
    if value.len() <= max {
        value
    } else {
        value.take(max - 1) + seq!['…']
    }
}

/// `value` cut to at most `max` characters, with an ellipsis where it was
/// cut. A non-empty value cannot be cut to nothing: `max` is then positive.
pub fn truncate(value: &str, max: usize) -> (cut: String)
    requires
        max > 0 || value@.len() == 0,
    ensures
        cut@ == spec_truncate(value@, max as nat),
        cut@.len() <= max,
{
    let count = value.unicode_len();
    if count <= max {
        to_string(value)
    } else {
        let head = value.substring_char(0, max - 1);
        let cut = concat(head, "…");
        proof {
            reveal_strlit("…");
        }
        cut
    }
}

/// The label of a contact in the sidebar: its name, or the first eight
/// characters of its UUID when it has none.
pub open spec fn spec_contact_label(contact: Contact) -> Seq<char> {
    if contact.name@.len() == 0 {
        spec_short_uuid(contact.uuid)
    } else {
        contact.name@
    }
}

/// The first eight characters of a contact's UUID.
pub fn short_uuid(contact: &Contact) -> (short: String)
    ensures
        short@ == spec_short_uuid(contact.uuid),
{
    uuid_prefix(contact.uuid)
}

/// The label of a contact in the sidebar.
pub fn contact_label(contact: &Contact) -> (label: String)
    ensures
        label@ == spec_contact_label(*contact),
{
    if contact.name.as_str().is_empty() {
        short_uuid(contact)
    } else {
        contact.name.clone()
    }
}

/// The conversation that the sidebar opens for a contact.
pub fn contact_thread(contact: &Contact) -> (thread: Thread)
    ensures
        thread == Thread::Contact(ContactId::Aci(contact.uuid)),
{
    Thread::Contact(ContactId::Aci(contact.uuid))
}

} // verus!
