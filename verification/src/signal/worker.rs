//! The decisions of the Signal worker: what it does with the texts the user
//! sends before the message queue is drained, what it reports of the
//! envelopes it receives, and how it reads stored histories.

use std::collections::HashMap;

use vstd::prelude::*;

use super::Event;
use crate::data::content::{spec_from_content, spec_receipt};
use crate::data::history::{latest, latest_message, sort_by_time, sort_by_timestamp};
use crate::data::{from_content, receipt_from_content, Content, ContactId, Message, Status, Thread};

verus! {

broadcast use vstd::std_specs::hash::group_hash_axioms;

/// A text to send: its conversation, its body and its timestamp.
pub type Outgoing = (Thread, String, u64);

/// The texts the user sent, held back until the worker has received the
/// messages that were queued for it while it was offline; then sent in the
/// order in which they were written.
pub struct Outbox {
    drained: bool,
    pending: Vec<Outgoing>,
    /// Every text taken in so far, in order.
    accepted: Ghost<Seq<Outgoing>>,
    /// Every text released for sending so far, in order.
    released: Ghost<Seq<Outgoing>>,
}

impl Outbox {
    /// Whether the queue of incoming messages has been drained.
    pub closed spec fn drained(&self) -> bool {
        self.drained
    }

    /// The texts held back.
    pub closed spec fn pending(&self) -> Seq<Outgoing> {
        self.pending@
    }

    /// Every text taken in so far, in order.
    pub closed spec fn accepted(&self) -> Seq<Outgoing> {
        self.accepted@
    }

    /// Every text released for sending so far, in order.
    pub closed spec fn released(&self) -> Seq<Outgoing> {
        self.released@
    }

    /// The law of the outbox: every text taken in is released once, in the
    /// order in which it was taken in, or is still held back; and none is
    /// held back once the queue is drained.
    pub open spec fn wf(&self) -> bool {
        &&& self.accepted() == self.released() + self.pending()
        &&& self.drained() ==> self.pending().len() == 0
    }

    /// Whether the queue of incoming messages has been drained, so that texts
    /// go out as soon as they are taken in.
    pub fn is_drained(&self) -> (drained: bool)
        ensures
            drained == self.drained(),
    {
        self.drained
    }

    /// An outbox before the queue is drained, with nothing taken in.
    pub fn new() -> (outbox: Outbox)
        ensures
            outbox.wf(),
            !outbox.drained(),
            outbox.accepted() == Seq::<Outgoing>::empty(),
            outbox.released() == Seq::<Outgoing>::empty(),
    {
        let outbox = Outbox {
            drained: false,
            pending: Vec::new(),
            accepted: Ghost(Seq::empty()),
            released: Ghost(Seq::empty()),
        };
        assert(outbox.accepted() =~= outbox.released() + outbox.pending());
        outbox
    }

    /// Every outbox holds to its law.
    #[verifier::type_invariant]
    spec fn keeps_law(self) -> bool {
        self.wf()
    }

    /// Takes in a text: it is released at once when the queue is drained,
    /// else held back.
    pub fn submit(&mut self, text: Outgoing) -> (now: Option<Outgoing>)
        ensures
            final(self).wf(),
            final(self).drained() == old(self).drained(),
            final(self).accepted() == old(self).accepted().push(text),
            if old(self).drained() {
                &&& now == Some(text)
                &&& final(self).released() == old(self).released().push(text)
            } else {
                &&& now is None
                &&& final(self).released() == old(self).released()
                &&& final(self).pending() == old(self).pending().push(text)
            },
    {
        let mut taken = Outbox::new();
        std::mem::swap(&mut taken, self);
        proof {
            use_type_invariant(&taken);
        }
        let Outbox { drained, mut pending, accepted, released } = taken;
        let ghost item = text;
        if drained {
            proof {
                assert(accepted@.push(item) =~= released@.push(item) + pending@);
            }
            *self = Outbox {
                drained,
                pending,
                accepted: Ghost(accepted@.push(item)),
                released: Ghost(released@.push(item)),
            };
            Some(text)
        } else {
            pending.push(text);
            proof {
                assert(accepted@.push(item) =~= released@ + pending@);
            }
            *self = Outbox { drained, pending, accepted: Ghost(accepted@.push(item)), released };
            None
        }
    }

    /// The queue of incoming messages has been drained: the first time, every
    /// text held back is released, in order; afterwards nothing happens.
    pub fn queue_drained(&mut self) -> (released: Vec<Outgoing>)
        ensures
            final(self).wf(),
            final(self).drained(),
            final(self).accepted() == old(self).accepted(),
            released@ == old(self).pending(),
            final(self).released() == old(self).released() + old(self).pending(),
    {
        let mut taken = Outbox::new();
        std::mem::swap(&mut taken, self);
        proof {
            use_type_invariant(&taken);
        }
        let Outbox { drained: _, pending, accepted, released } = taken;
        let ghost now_released = released@ + pending@;
        proof {
            assert(accepted@ =~= now_released + Seq::<Outgoing>::empty());
        }
        *self = Outbox {
            drained: true,
            pending: Vec::new(),
            accepted,
            released: Ghost(now_released),
        };
        pending
    }
}

/// The messages that `contents` carry, in order.
pub open spec fn content_messages(contents: Seq<Content>) -> Seq<Message>
    decreases contents.len(),
{
    if contents.len() == 0 {
        Seq::empty()
    } else {
        match spec_from_content(contents.last()) {
            Some((_, m)) => content_messages(contents.drop_last()).push(m),
            None => content_messages(contents.drop_last()),
        }
    }
}

/// The messages that stored envelopes carry, in the order they come.
pub fn messages_of(contents: &[Content]) -> (messages: Vec<Message>)
    ensures
        messages@ == content_messages(contents@),
{
    let mut messages: Vec<Message> = Vec::new();
    let mut i: usize = 0;
    while i < contents.len()
        invariant
            i <= contents@.len(),
            messages@ == content_messages(contents@.take(i as int)),
        decreases contents.len() - i,
    {
        proof {
            assert(contents@.take(i + 1).drop_last() =~= contents@.take(i as int));
        }
        match from_content(&contents[i]) {
            Some((_, m)) => messages.push(m),
            None => {},
        }
        i = i + 1;
    }
    proof {
        assert(contents@.take(contents@.len() as int) =~= contents@);
    }
    messages
}

/// The messages of a stored history, ordered by time.
pub fn history_messages(contents: &[Content]) -> (messages: Vec<Message>)
    ensures
        messages@ == sort_by_time(content_messages(contents@)),
{
    sort_by_timestamp(messages_of(contents))
}

/// The latest message that stored envelopes carry, if any: the preview of
/// their conversation.
pub fn last_message(contents: &[Content]) -> (last: Option<Message>)
    ensures
        last == latest(content_messages(contents@)),
{
    let messages = messages_of(contents);
    latest_message(messages.as_slice())
}

/// The status of a loaded message of one's own, from the status stored for
/// its timestamp: `Sent` when none is stored, and `Failed` for a message
/// still stored as `Sending`, whose sending was cut short.
pub open spec fn loaded_status(stored: Map<u64, Status>, timestamp: u64) -> Status {
    let status = if stored.contains_key(timestamp) {
        stored[timestamp]
    } else {
        Status::Sent
    };
    if status == Status::Sending {
        Status::Failed
    } else {
        status
    }
}

/// `m` with the status it loads with: messages of one's own take their
/// loaded status; others are unchanged.
pub open spec fn with_loaded_status(m: Message, aci: u128, stored: Map<u64, Status>) -> Message {
    if m.sender == aci {
        Message { status: Some(loaded_status(stored, m.timestamp)), ..m }
    } else {
        m
    }
}

/// The law of loaded statuses: a message of someone else loads as it was; a
/// message of one's own keeps its timestamp, sender and body and loads with
/// the status stored for its timestamp, except that a stored `Sending` loads
/// as `Failed` and a missing status as `Sent`.
pub proof fn lemma_loaded_status_law(m: Message, aci: u128, stored: Map<u64, Status>)
    ensures
        m.sender != aci ==> with_loaded_status(m, aci, stored) == m,
        with_loaded_status(m, aci, stored).timestamp == m.timestamp,
        with_loaded_status(m, aci, stored).sender == m.sender,
        with_loaded_status(m, aci, stored).body == m.body,
        m.sender == aci && stored.contains_key(m.timestamp) && stored[m.timestamp]
            != Status::Sending ==> with_loaded_status(m, aci, stored).status == Some(
            stored[m.timestamp],
        ),
        m.sender == aci && stored.contains_key(m.timestamp) && stored[m.timestamp]
            == Status::Sending ==> with_loaded_status(m, aci, stored).status == Some(Status::Failed),
        m.sender == aci && !stored.contains_key(m.timestamp) ==> with_loaded_status(
            m,
            aci,
            stored,
        ).status == Some(Status::Sent),
{
}

/// Gives each message of one's own in a loaded history its status, from the
/// statuses stored for their timestamps.
pub fn apply_stored_statuses(messages: &mut Vec<Message>, aci: u128, stored: &HashMap<u64, Status>)
    ensures
        final(messages)@ == old(messages)@.map_values(
            |m: Message| with_loaded_status(m, aci, stored@),
        ),
{
    let ghost start = messages@;
    let mut i: usize = 0;
    while i < messages.len()
        invariant
            i <= messages@.len(),
            messages@.len() == start.len(),
            forall|j: int| 0 <= j < i ==> messages@[j] == with_loaded_status(start[j], aci, stored@),
            forall|j: int| i <= j < messages@.len() ==> messages@[j] == start[j],
        decreases messages.len() - i,
    {
        if messages[i].sender == aci {
            let status = match stored.get(&messages[i].timestamp) {
                Some(status) => *status,
                None => Status::Sent,
            };
            let status = match status {
                Status::Sending => Status::Failed,
                other => other,
            };
            let mut updated = messages[i].duplicate();
            updated.status = Some(status);
            messages.set(i, updated);
        }
        i = i + 1;
    }
    assert(messages@ =~= start.map_values(|m: Message| with_loaded_status(m, aci, stored@)));
}

/// What a received envelope that carries no delivery or read receipt is
/// reported as: the message it carries, if any. (`incoming` reports a receipt
/// as the statuses it gives; a status report holds a `Vec`, which a spec
/// function cannot build, so this function gives `None` for it.)
pub open spec fn spec_incoming(content: Content) -> Option<Event> {
    match spec_receipt(content) {
        Some(_) => None,
        None => match spec_from_content(content) {
            Some((thread, message)) => Some(Event::Message { thread, message }),
            None => None,
        },
    }
}

/// What a received envelope is reported as to the user interface: a receipt
/// as the status its messages reached, else the message it carries, if any.
pub fn incoming(content: &Content) -> (event: Option<Event>)
    ensures
        match spec_receipt(*content) {
            Some((timestamps, status)) => event matches Some(
                Event::MessageStatus { timestamps: t, status: s },
            ) && t@ == timestamps && s == status,
            None => event == spec_incoming(*content),
        },
{
    match receipt_from_content(content) {
        Some((timestamps, status)) => Some(Event::MessageStatus { timestamps, status }),
        None => match from_content(content) {
            Some((thread, message)) => Some(Event::Message { thread, message }),
            None => None,
        },
    }
}

/// The report of a text's sending: `Sent` when it went out, else `Failed`,
/// for the message sent at `timestamp`.
pub fn delivery_report(timestamp: u64, sent: bool) -> (report: Event)
    ensures
        report matches Event::MessageStatus { timestamps, status } && timestamps@ == seq![timestamp]
            && status == (if sent {
            Status::Sent
        } else {
            Status::Failed
        }),
{
    let status = if sent {
        Status::Sent
    } else {
        Status::Failed
    };
    let mut timestamps = Vec::new();
    timestamps.push(timestamp);
    proof {
        assert(timestamps@ =~= seq![timestamp]);
    }
    Event::MessageStatus { timestamps, status }
}

/// The account that a stored copy of an outgoing text names as its
/// destination: the contact of a conversation with one, or one's own account
/// for a group.
pub fn outgoing_destination(thread: &Thread, aci: u128) -> (destination: ContactId)
    ensures
        destination == (match *thread {
            Thread::Contact(contact) => contact,
            Thread::Group(_) => ContactId::Aci(aci),
        }),
{
    match thread {
        Thread::Contact(contact) => *contact,
        Thread::Group(_) => ContactId::Aci(aci),
    }
}

/// The master key that an outgoing text carries in its group context, for a
/// group conversation.
pub fn group_key(thread: &Thread) -> (key: Option<[u8; 32]>)
    ensures
        key == (match *thread {
            Thread::Contact(_) => None,
            Thread::Group(master_key) => Some(master_key),
        }),
{
    match thread {
        Thread::Contact(_) => None,
        Thread::Group(master_key) => Some(*master_key),
    }
}

/// The conversations that the sidebar lists: each contact's, then each
/// group's, in order.
pub fn sidebar_threads(contacts: &[u128], groups: &[[u8; 32]]) -> (threads: Vec<Thread>)
    ensures
        threads@ == contacts@.map_values(|uuid: u128| Thread::Contact(ContactId::Aci(uuid)))
            + groups@.map_values(|key: [u8; 32]| Thread::Group(key)),
{
    let mut threads: Vec<Thread> = Vec::new();
    let mut i: usize = 0;
    while i < contacts.len()
        invariant
            i <= contacts@.len(),
            threads@ == contacts@.take(i as int).map_values(
                |uuid: u128| Thread::Contact(ContactId::Aci(uuid)),
            ),
        decreases contacts.len() - i,
    {
        threads.push(Thread::Contact(ContactId::Aci(contacts[i])));
        proof {
            assert(contacts@.take(i + 1).map_values(
                |uuid: u128| Thread::Contact(ContactId::Aci(uuid)),
            ) =~= contacts@.take(i as int).map_values(
                |uuid: u128| Thread::Contact(ContactId::Aci(uuid)),
            ).push(Thread::Contact(ContactId::Aci(contacts@[i as int]))));
        }
        i = i + 1;
    }
    let ghost first = threads@;
    proof {
        assert(contacts@.take(contacts@.len() as int) =~= contacts@);
    }
    let mut j: usize = 0;
    while j < groups.len()
        invariant
            j <= groups@.len(),
            threads@ == first + groups@.take(j as int).map_values(|key: [u8; 32]| Thread::Group(key)),
        decreases groups.len() - j,
    {
        threads.push(Thread::Group(groups[j]));
        proof {
            assert(groups@.take(j + 1).map_values(|key: [u8; 32]| Thread::Group(key))
                =~= groups@.take(j as int).map_values(|key: [u8; 32]| Thread::Group(key)).push(
                Thread::Group(groups@[j as int]),
            ));
        }
        j = j + 1;
    }
    proof {
        assert(groups@.take(groups@.len() as int) =~= groups@);
    }
    threads
}

/// Whether a group's avatar is worth fetching: the store names an avatar
/// for it (the path of its picture is not empty).
pub fn has_group_avatar(avatar: &str) -> (fetch: bool)
    ensures
        fetch == (avatar@.len() > 0),
{
    avatar.unicode_len() > 0
}

/// The report of a conversation's avatar picture, when one was found and it
/// is not empty.
pub fn avatar_event(thread: Thread, bytes: Option<Vec<u8>>) -> (event: Option<Event>)
    ensures
        match bytes {
            Some(b) => if b@.len() > 0 {
                event matches Some(Event::Avatar { thread: t, bytes: found }) && t == thread
                    && found@ == b@
            } else {
                event is None
            },
            None => event is None,
        },
{
    match bytes {
        Some(bytes) => if bytes.len() > 0 {
            Some(Event::Avatar { thread, bytes })
        } else {
            None
        },
        None => None,
    }
}

} // verus!
