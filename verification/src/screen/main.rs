use vstd::prelude::*;

use crate::config::{layout_threads, Axis, Layout};
use crate::data::contact::spec_contact_name;
use crate::data::history::{
    absorb_all, absorb_message, last_arrival, lemma_absorb_all_keeps, lemma_sort_by_time,
    ordered_by_time, sort_by_time, sort_by_timestamp, upgrade_statuses, upgraded,
};
use crate::data::ident::{short_uuid, spec_short_uuid};
use crate::data::thread::same_key;
use crate::data::thread_map::{entry_at, keys_unique, map_of};
use crate::data::{contact_name, Contact, Group, Message, Status, Thread, ThreadMap};
use crate::pane::{chat, Buffer, Pane};
use crate::signal::Command;
use crate::clock::clock_millis;
use crate::text::{spec_trim, to_string};

verus! {

/// The arrangement of panes that the pane grid is built from: a tree of
/// splits whose leaves are panes.
#[derive(Debug)]
pub enum Configuration {
    Split { axis: Axis, ratio_bits: u32, a: Box<Configuration>, b: Box<Configuration> },
    Pane(Pane),
}

/// The layout that a configuration saves: the same tree, each pane replaced
/// by the conversation it shows.
pub open spec fn config_layout(config: Configuration) -> Layout
    decreases config,
{
    match config {
        Configuration::Split { axis, ratio_bits, a, b } => Layout::Split {
            axis,
            ratio_bits,
            a: Box::new(config_layout(*a)),
            b: Box::new(config_layout(*b)),
        },
        Configuration::Pane(pane) => Layout::Pane(pane.spec_thread()),
    }
}

/// Whether every chat of the configuration has nothing typed yet.
pub open spec fn fresh(config: Configuration) -> bool
    decreases config,
{
    match config {
        Configuration::Split { a, b, .. } => fresh(*a) && fresh(*b),
        Configuration::Pane(pane) => match pane.buffer {
            Buffer::Empty => true,
            Buffer::Chat(chat) => chat.input_text() == Seq::<char>::empty(),
        },
    }
}

/// The pane configuration for a saved layout, and the conversations its
/// panes show, from left to right. Saving the configuration again gives back
/// the layout: `config_layout` undoes `restore`.
pub fn restore(layout: &Layout) -> (restored: (Configuration, Vec<Thread>))
    ensures
        config_layout(restored.0) == *layout,
        fresh(restored.0),
        restored.1@ == layout_threads(*layout),
    decreases layout,
{
    match layout {
        Layout::Split { axis, ratio_bits, a, b } => {
            let (a, mut threads) = restore(a);
            let (b, mut more) = restore(b);
            threads.append(&mut more);
            (Configuration::Split { axis: *axis, ratio_bits: *ratio_bits, a: Box::new(a), b: Box::new(b) }, threads)
        },
        Layout::Pane(thread) => {
            match thread {
                Some(thread) => {
                    let mut threads = Vec::new();
                    threads.push(*thread);
                    (Configuration::Pane(Pane::chat(*thread)), threads)
                },
                None => (Configuration::Pane(Pane::empty()), Vec::new()),
            }
        },
    }
}

/// The commands that load the conversations of `threads`, in order.
pub open spec fn load_commands(threads: Seq<Thread>) -> Seq<Command> {
    threads.map_values(|t: Thread| Command::LoadThread(t))
}

/// What the main screen holds, as values.
pub struct MainView {
    /// The account whose client this is.
    pub aci: u128,
    pub contacts: Seq<Contact>,
    pub groups: Seq<Group>,
    /// The avatar picture of each conversation that has one, as image bytes.
    pub avatars: Map<Thread, Seq<u8>>,
    /// The latest message known of each conversation, shown in the sidebar.
    pub previews: Map<Thread, Message>,
    /// The number of unread messages of each conversation.
    pub unread: Map<Thread, u32>,
    /// The messages of each conversation.
    pub histories: Map<Thread, Seq<Message>>,
    /// The conversations whose stored history has been loaded.
    pub loaded: Set<Thread>,
    /// The error shown in the banner, if any.
    pub error: Option<Seq<char>>,
}

/// The main screen of a linked client, apart from its pane grid: contacts,
/// groups, conversations and their state.
pub struct Main {
    aci: u128,
    contacts: Vec<Contact>,
    groups: Vec<Group>,
    avatars: ThreadMap<Vec<u8>>,
    previews: ThreadMap<Message>,
    unread: ThreadMap<u32>,
    histories: ThreadMap<Vec<Message>>,
    loaded: ThreadMap<()>,
    error: Option<String>,
}

impl View for Main {
    type V = MainView;

    closed spec fn view(&self) -> MainView {
        MainView {
            aci: self.aci,
            contacts: self.contacts@,
            groups: self.groups@,
            avatars: self.avatars@.map_values(|bytes: Vec<u8>| bytes@),
            previews: self.previews@,
            unread: self.unread@,
            histories: self.histories@.map_values(|history: Vec<Message>| history@),
            loaded: self.loaded@.dom(),
            error: match self.error {
                Some(e) => Some(e@),
                None => None,
            },
        }
    }
}

/// The messages of `thread`, none when it has no history yet.
pub open spec fn history_of(v: MainView, thread: Thread) -> Seq<Message> {
    if v.histories.contains_key(thread) {
        v.histories[thread]
    } else {
        Seq::empty()
    }
}

/// The number of unread messages of `thread`.
pub open spec fn unread_of(v: MainView, thread: Thread) -> u32 {
    if v.unread.contains_key(thread) {
        v.unread[thread]
    } else {
        0
    }
}

/// The previews after `m` arrived in `thread`: it becomes the preview unless
/// the current one was sent later.
pub open spec fn with_preview(previews: Map<Thread, Message>, thread: Thread, m: Message) -> Map<
    Thread,
    Message,
> {
    if !previews.contains_key(thread) || previews[thread].timestamp <= m.timestamp {
        previews.insert(thread, m)
    } else {
        previews
    }
}

/// Whether `i` is the first position in `groups` of the group with `key`.
pub open spec fn first_group_at(groups: Seq<Group>, key: [u8; 32], i: int) -> bool {
    &&& 0 <= i < groups.len()
    &&& groups[i].master_key == key
    &&& forall|j: int| 0 <= j < i ==> groups[j].master_key != key
}

/// The first position in `groups` of the group with `key`, when there is one.
pub open spec fn first_group(groups: Seq<Group>, key: [u8; 32]) -> int {
    choose|i: int| first_group_at(groups, key, i)
}

/// The title of the first group with `key`, if there is one.
pub open spec fn spec_group_title(groups: Seq<Group>, key: [u8; 32]) -> Option<Seq<char>> {
    if exists|i: int| first_group_at(groups, key, i) {
        Some(groups[first_group(groups, key)].title@)
    } else {
        None
    }
}

/// The title of the first group in `groups` with the master key `key`.
pub fn group_title<'a>(groups: &'a [Group], key: &[u8; 32]) -> (title: Option<&'a str>)
    ensures
        match title {
            Some(t) => spec_group_title(groups@, *key) == Some(t@),
            None => spec_group_title(groups@, *key) is None,
        },
{
    let mut i: usize = 0;
    while i < groups.len()
        invariant
            i <= groups@.len(),
            forall|j: int| 0 <= j < i ==> groups@[j].master_key != *key,
        decreases groups.len() - i,
    {
        if same_key(&groups[i].master_key, key) {
            proof {
                assert(first_group_at(groups@, *key, i as int));
                let k = first_group(groups@, *key);
                if k < i {
                    assert(groups@[k].master_key != *key);
                } else if k > i {
                    assert(groups@[i as int].master_key != *key);
                }
            }
            return Some(groups[i].title.as_str());
        }
        i = i + 1;
    }
    None
}

/// The title of a conversation: the contact's name or the first eight
/// characters of its UUID; the title of the first group with the master key,
/// or "Group".
pub open spec fn spec_thread_title(contacts: Seq<Contact>, groups: Seq<Group>, thread: Thread) -> Seq<
    char,
> {
    match thread {
        Thread::Contact(contact) => match spec_contact_name(contacts, contact.spec_uuid()) {
            Some(name) => name,
            None => spec_short_uuid(contact.spec_uuid()),
        },
        Thread::Group(key) => match spec_group_title(groups, key) {
            Some(title) => title,
            None => "Group"@,
        },
    }
}

/// The message of one's own that is being sent: `body` from `aci` at
/// `timestamp`, with the status `Sending`.
pub open spec fn outgoing(aci: u128, body: String, timestamp: u64) -> Message {
    Message { timestamp, sender: aci, body, status: Some(Status::Sending) }
}

/// The screen after `message` arrived in, or was sent to, `thread`: it may
/// become the preview, and it comes last in the history.
pub open spec fn recorded(v: MainView, thread: Thread, message: Message) -> MainView {
    MainView {
        previews: with_preview(v.previews, thread, message),
        histories: v.histories.insert(thread, history_of(v, thread).push(message)),
        ..v
    }
}

/// The history of `thread` after its stored messages were loaded: the
/// messages that arrived meanwhile are merged in (replacing a stored copy of
/// the same message), and all are ordered by time.
pub open spec fn loaded_history(v: MainView, thread: Thread, stored: Seq<Message>) -> Seq<Message> {
    sort_by_time(absorb_all(stored, history_of(v, thread)))
}

/// The messages of `history` after a status report.
pub open spec fn upgraded_history(
    history: Seq<Message>,
    aci: u128,
    timestamps: Seq<u64>,
    status: Status,
) -> Seq<Message> {
    history.map_values(|m: Message| upgraded(m, aci, timestamps, status))
}

/// The screen of a newly linked account `aci`: nothing known yet.
pub open spec fn new_main(aci: u128) -> MainView {
    MainView {
        aci,
        contacts: Seq::empty(),
        groups: Seq::empty(),
        avatars: Map::empty(),
        previews: Map::empty(),
        unread: Map::empty(),
        histories: Map::empty(),
        loaded: Set::empty(),
        error: None,
    }
}

/// The screen after the stored messages of `thread` were loaded (see
/// `loaded_history`): the conversation counts as loaded, and its latest
/// message may become the preview.
pub open spec fn after_history(v: MainView, thread: Thread, stored: Seq<Message>) -> MainView {
    let merged = loaded_history(v, thread, stored);
    MainView {
        loaded: v.loaded.insert(thread),
        histories: v.histories.insert(thread, merged),
        previews: if merged.len() > 0 {
            with_preview(v.previews, thread, merged.last())
        } else {
            v.previews
        },
        ..v
    }
}

/// Whether a message that arrives in `thread` counts as unread: it is from
/// someone else and no pane shows the conversation.
pub open spec fn counts_unread(v: MainView, message: Message, visible: bool) -> bool {
    message.sender != v.aci && !visible
}

/// The screen after `message` arrived in `thread`, which a pane shows when
/// `visible`.
pub open spec fn after_message(v: MainView, thread: Thread, message: Message, visible: bool) -> MainView {
    MainView {
        unread: if counts_unread(v, message, visible) {
            v.unread.insert(thread, (unread_of(v, thread) + 1) as u32)
        } else {
            v.unread
        },
        ..recorded(v, thread, message)
    }
}

/// The screen after a report that the messages sent at `timestamps`
/// reached `status`.
pub open spec fn after_status(v: MainView, timestamps: Seq<u64>, status: Status) -> MainView {
    MainView {
        histories: v.histories.map_values(
            |h: Seq<Message>| upgraded_history(h, v.aci, timestamps, status),
        ),
        ..v
    }
}

/// The law of previews: after a message arrives, the preview of its
/// conversation is the later of the one before and the message (the message
/// when they were sent at the same time), so a preview's timestamp never
/// decreases; other conversations keep theirs.
pub proof fn lemma_preview_is_latest(previews: Map<Thread, Message>, thread: Thread, m: Message)
    ensures
        with_preview(previews, thread, m).contains_key(thread),
        with_preview(previews, thread, m)[thread].timestamp >= m.timestamp,
        previews.contains_key(thread) ==> with_preview(previews, thread, m)[thread].timestamp
            >= previews[thread].timestamp,
        with_preview(previews, thread, m)[thread] == (if !previews.contains_key(thread)
            || previews[thread].timestamp <= m.timestamp {
            m
        } else {
            previews[thread]
        }),
        forall|other: Thread|
            other != thread ==> #[trigger] with_preview(previews, thread, m).contains_key(other)
                == previews.contains_key(other) && (previews.contains_key(other) ==> with_preview(
                previews,
                thread,
                m,
            )[other] == previews[other]),
{
}

/// The law of status reports on the screen: after the report that the
/// messages sent at `timestamps` reached `status`, each conversation keeps its
/// messages in place; a message not sent at one of `timestamps` is exactly as
/// it was, and a reported message of one's own whose status was none or
/// earlier now has `status`.
pub proof fn lemma_status_report_on_screen(
    v: MainView,
    timestamps: Seq<u64>,
    status: Status,
    thread: Thread,
    i: int,
)
    requires
        v.histories.contains_key(thread),
        0 <= i < v.histories[thread].len(),
    ensures
        after_status(v, timestamps, status).histories.contains_key(thread),
        after_status(v, timestamps, status).histories[thread].len() == v.histories[thread].len(),
        !timestamps.contains(v.histories[thread][i].timestamp) ==> after_status(
            v,
            timestamps,
            status,
        ).histories[thread][i] == v.histories[thread][i],
        v.histories[thread][i].sender == v.aci && timestamps.contains(
            v.histories[thread][i].timestamp,
        ) && (v.histories[thread][i].status is None || (v.histories[thread][i].status matches Some(
            current,
        ) && current.rank() < status.rank())) ==> after_status(
            v,
            timestamps,
            status,
        ).histories[thread][i].status == Some(status),
        after_status(v, timestamps, status).histories[thread][i].timestamp
            == v.histories[thread][i].timestamp,
        after_status(v, timestamps, status).histories[thread][i].body == v.histories[thread][i].body,
{
    let m = v.histories[thread][i];
    crate::data::history::lemma_report_changes_only_reported(m, v.aci, timestamps, status);
    crate::data::history::lemma_upgraded_advances(m, v.aci, timestamps, status);
}

/// The law of the preview after a history is loaded: when the loaded history
/// is not empty, the conversation has a preview sent no earlier than any
/// message of that history; with no preview before, it is the last message
/// of the history, which is ordered by time.
pub proof fn lemma_loaded_preview_is_latest(v: MainView, thread: Thread, stored: Seq<Message>)
    requires
        loaded_history(v, thread, stored).len() > 0,
    ensures
        after_history(v, thread, stored).previews.contains_key(thread),
        forall|j: int|
            0 <= j < loaded_history(v, thread, stored).len() ==> after_history(
                v,
                thread,
                stored,
            ).previews[thread].timestamp >= #[trigger] loaded_history(v, thread, stored)[j].timestamp,
        !v.previews.contains_key(thread) ==> after_history(v, thread, stored).previews[thread]
            == loaded_history(v, thread, stored)[loaded_history(v, thread, stored).len() - 1],
        ordered_by_time(loaded_history(v, thread, stored)),
{
    let merged = loaded_history(v, thread, stored);
    lemma_sort_by_time(absorb_all(stored, history_of(v, thread)));
    let last = merged[merged.len() - 1];
    assert forall|j: int| 0 <= j < merged.len() implies after_history(
        v,
        thread,
        stored,
    ).previews[thread].timestamp >= #[trigger] merged[j].timestamp by {
        assert(merged[j].timestamp <= last.timestamp);
    }
}

/// The law of loaded conversations: no change of the main screen takes a
/// conversation out of `loaded`, and loading a history puts its conversation
/// in. (So once loaded, opening the conversation loads nothing again; see
/// `Main::open_thread`.)
pub proof fn lemma_loaded_only_grows(
    v: MainView,
    thread: Thread,
    stored: Seq<Message>,
    message: Message,
    visible: bool,
    timestamps: Seq<u64>,
    status: Status,
)
    ensures
        after_history(v, thread, stored).loaded == v.loaded.insert(thread),
        after_message(v, thread, message, visible).loaded == v.loaded,
        after_status(v, timestamps, status).loaded == v.loaded,
        recorded(v, thread, message).loaded == v.loaded,
{
}

/// What the user does in a pane leaves `loaded` as it was (see
/// `lemma_loaded_only_grows`).
pub proof fn lemma_typing_keeps_loaded(
    before: MainView,
    after: MainView,
    pane_before: Pane,
    pane_after: Pane,
    message: chat::Message,
    command: Option<Command>,
)
    requires
        typed_in_pane(before, after, pane_before, pane_after, message, command),
    ensures
        after.loaded == before.loaded,
{
}

/// The law of loading a history: every message that arrived in the
/// conversation before its history was loaded is in the loaded history,
/// unless a later arrival of the same message replaced it; and the loaded
/// history is ordered by time.
pub proof fn lemma_loaded_history_keeps_live(v: MainView, thread: Thread, stored: Seq<Message>, j: int)
    requires
        last_arrival(history_of(v, thread), j),
    ensures
        loaded_history(v, thread, stored).contains(history_of(v, thread)[j]),
        ordered_by_time(loaded_history(v, thread, stored)),
{
    let live = history_of(v, thread);
    let merged = absorb_all(stored, live);
    lemma_absorb_all_keeps(stored, live, j);
    lemma_sort_by_time(merged);
    let x = live[j];
    vstd::seq_lib::to_multiset_contains(merged, x);
    vstd::seq_lib::to_multiset_contains(sort_by_time(merged), x);
}

/// The effect of what the user did in a pane, on the pane (from
/// `pane_before` to `pane_after`) and on the screen (from `before` to
/// `after`), with the command that comes back. A new text replaces the
/// input. Submitting an input that is more than whitespace sends it without
/// its surrounding whitespace, clears the input, and records the text as a
/// message of one's own, stamped with the time it was sent, with the status
/// `Sending`; submitting blank input does nothing.
pub open spec fn typed_in_pane(
    before: MainView,
    after: MainView,
    pane_before: Pane,
    pane_after: Pane,
    message: chat::Message,
    command: Option<Command>,
) -> bool {
    match pane_before.buffer {
        Buffer::Empty => {
            &&& pane_after == pane_before
            &&& after == before
            &&& command is None
        },
        Buffer::Chat(chat_before) => pane_after.buffer matches Buffer::Chat(chat_after) && {
            &&& chat_after.thread == chat_before.thread
            &&& match message {
                chat::Message::InputChanged(text) => {
                    &&& chat_after.input_text() == text@
                    &&& after == before
                    &&& command is None
                },
                chat::Message::Submit => {
                    let body = spec_trim(chat_before.input_text());
                    if body.len() == 0 {
                        &&& chat_after.input_text() == chat_before.input_text()
                        &&& after == before
                        &&& command is None
                    } else {
                        &&& chat_after.input_text() == Seq::<char>::empty()
                        &&& command matches Some(Command::SendText { thread, body: sent, timestamp })
                            && thread == chat_before.thread && sent@ == body && after == recorded(
                            before,
                            thread,
                            outgoing(before.aci, sent, timestamp),
                        )
                    }
                },
            }
        },
    }
}

/// The effect of what the user did in a pane (see `typed_in_pane`) when the
/// clock read `now`, in milliseconds since the Unix epoch: a text sent is
/// stamped with `now`.
pub open spec fn typed_in_pane_at(
    before: MainView,
    after: MainView,
    pane_before: Pane,
    pane_after: Pane,
    message: chat::Message,
    now: u64,
    command: Option<Command>,
) -> bool {
    &&& typed_in_pane(before, after, pane_before, pane_after, message, command)
    &&& command matches Some(Command::SendText { timestamp, .. }) ==> timestamp == now
}


proof fn lemma_reversed_entries(
    orig: Seq<(Thread, Vec<Message>)>,
    out: Seq<(Thread, Vec<Message>)>,
    aci: u128,
    timestamps: Seq<u64>,
    status: Status,
)
    requires
        keys_unique(orig),
        out.len() == orig.len(),
        forall|k: int|
            0 <= k < out.len() ==> #[trigger] out[k].0 == orig[orig.len() - 1 - k].0 && out[k].1@
                == upgraded_history(orig[orig.len() - 1 - k].1@, aci, timestamps, status),
    ensures
        keys_unique(out),
        map_of(out).map_values(|h: Vec<Message>| h@) == map_of(orig).map_values(
            |h: Vec<Message>| h@,
        ).map_values(|h: Seq<Message>| upgraded_history(h, aci, timestamps, status)),
{
    let n = orig.len() as int;
    assert forall|a: int, b: int|
        0 <= a < out.len() && 0 <= b < out.len() && a != b implies #[trigger] out[a].0
        != #[trigger] out[b].0 by {
        assert(out[a].0 == orig[n - 1 - a].0);
        assert(out[b].0 == orig[n - 1 - b].0);
    };
    let left = map_of(out).map_values(|h: Vec<Message>| h@);
    let right = map_of(orig).map_values(|h: Vec<Message>| h@).map_values(
        |h: Seq<Message>| upgraded_history(h, aci, timestamps, status),
    );
    assert forall|t: Thread| #[trigger] left.contains_key(t) == right.contains_key(t) by {
        if map_of(out).contains_key(t) {
            let j = choose|j: int| entry_at(out, t, j);
            assert(out[j].0 == orig[n - 1 - j].0);
            assert(entry_at(orig, t, n - 1 - j));
        }
        if map_of(orig).contains_key(t) {
            let j = choose|j: int| entry_at(orig, t, j);
            assert(out[n - 1 - j].0 == orig[j].0);
            assert(entry_at(out, t, n - 1 - j));
        }
    };
    assert forall|t: Thread| #[trigger] left.contains_key(t) implies left[t] == right[t] by {
        let j = choose|j: int| entry_at(out, t, j);
        crate::data::thread_map::lemma_map_of_at(out, j);
        assert(out[j].0 == orig[n - 1 - j].0);
        crate::data::thread_map::lemma_map_of_at(orig, n - 1 - j);
    };
    assert(left =~= right);
}

impl Main {
    /// The main screen of the account `aci`, with the panes of a saved layout
    /// (or one empty pane), and the commands that load the conversations
    /// those panes show.
    pub fn new(aci: u128, layout: Option<&Layout>) -> (created: (Main, Vec<Command>, Configuration))
        ensures
            created.0@ == new_main(aci),
            fresh(created.2),
            match layout {
                Some(l) => {
                    &&& config_layout(created.2) == *l
                    &&& created.1@ == load_commands(layout_threads(*l))
                },
                None => {
                    &&& created.2 matches Configuration::Pane(pane) && pane.buffer is Empty
                    &&& created.1@ == Seq::<Command>::empty()
                },
            },
    {
        let (configuration, threads) = match layout {
            Some(layout) => restore(layout),
            None => (Configuration::Pane(Pane::empty()), Vec::new()),
        };
        let mut commands: Vec<Command> = Vec::new();
        let mut i: usize = 0;
        while i < threads.len()
            invariant
                i <= threads@.len(),
                commands@ == load_commands(threads@.take(i as int)),
            decreases threads.len() - i,
        {
            commands.push(Command::LoadThread(threads[i]));
            proof {
                assert(load_commands(threads@.take(i + 1)) =~= load_commands(threads@.take(i as int)).push(
                    Command::LoadThread(threads@[i as int]),
                ));
            }
            i = i + 1;
        }
        proof {
            assert(threads@.take(threads@.len() as int) =~= threads@);
        }
        let main = Main {
            aci,
            contacts: Vec::new(),
            groups: Vec::new(),
            avatars: ThreadMap::new(),
            previews: ThreadMap::new(),
            unread: ThreadMap::new(),
            histories: ThreadMap::new(),
            loaded: ThreadMap::new(),
            error: None,
        };
        proof {
            assert(main@.avatars =~= Map::empty());
            assert(main@.histories =~= Map::empty());
            assert(main@.loaded =~= Set::empty());
        }
        (main, commands, configuration)
    }

    /// The account whose client this is.
    pub fn aci(&self) -> (aci: u128)
        ensures
            aci == self@.aci,
    {
        self.aci
    }

    /// The contacts of the account.
    pub fn contacts(&self) -> (contacts: &[Contact])
        ensures
            contacts@ == self@.contacts,
    {
        self.contacts.as_slice()
    }

    /// The groups of the account.
    pub fn groups(&self) -> (groups: &[Group])
        ensures
            groups@ == self@.groups,
    {
        self.groups.as_slice()
    }

    /// The error shown in the banner, if any.
    pub fn error(&self) -> (error: Option<&str>)
        ensures
            match error {
                Some(e) => self@.error == Some(e@),
                None => self@.error is None,
            },
    {
        match &self.error {
            Some(e) => Some(e.as_str()),
            None => None,
        }
    }

    /// The avatar picture of `thread`, as image bytes, if it has one.
    pub fn avatar(&self, thread: &Thread) -> (bytes: Option<&Vec<u8>>)
        ensures
            match bytes {
                Some(b) => self@.avatars.contains_key(*thread) && self@.avatars[*thread] == b@,
                None => !self@.avatars.contains_key(*thread),
            },
    {
        self.avatars.get(thread)
    }

    /// The preview of `thread` in the sidebar, if it has one.
    pub fn preview(&self, thread: &Thread) -> (preview: Option<&Message>)
        ensures
            match preview {
                Some(m) => self@.previews.contains_key(*thread) && self@.previews[*thread] == *m,
                None => !self@.previews.contains_key(*thread),
            },
    {
        self.previews.get(thread)
    }

    /// The number of unread messages of `thread`.
    pub fn unread_count(&self, thread: &Thread) -> (count: u32)
        ensures
            count == unread_of(self@, *thread),
    {
        match self.unread.get(thread) {
            Some(count) => *count,
            None => 0,
        }
    }

    /// The messages of `thread`, if it has any history.
    pub fn history(&self, thread: &Thread) -> (history: Option<&Vec<Message>>)
        ensures
            match history {
                Some(h) => self@.histories.contains_key(*thread) && self@.histories[*thread] == h@,
                None => !self@.histories.contains_key(*thread),
            },
    {
        self.histories.get(thread)
    }

    /// Opens `thread` in the focused pane: its unread count is cleared, the
    /// pane to put there is a new chat on it, and its stored history is
    /// loaded unless it already was.
    pub fn open_thread(&mut self, thread: Thread) -> (opened: (Pane, Option<Command>))
        ensures
            final(self)@ == (MainView { unread: old(self)@.unread.remove(thread), ..old(self)@ }),
            opened.0.buffer matches Buffer::Chat(chat) && chat.thread == thread
                && chat.input_text() == Seq::<char>::empty(),
            opened.1 == (if old(self)@.loaded.contains(thread) {
                None
            } else {
                Some(Command::LoadThread(thread))
            }),
    {
        self.unread.remove(&thread);
        let pane = Pane::chat(thread);
        if self.loaded.contains(&thread) {
            (pane, None)
        } else {
            (pane, Some(Command::LoadThread(thread)))
        }
    }

    /// Keeps the avatar picture of `thread`.
    pub fn avatar_loaded(&mut self, thread: Thread, bytes: Vec<u8>)
        ensures
            final(self)@ == (MainView {
                avatars: old(self)@.avatars.insert(thread, bytes@),
                ..old(self)@
            }),
    {
        let ghost b = bytes@;
        self.avatars.insert(thread, bytes);
        proof {
            assert(self@.avatars =~= old(self)@.avatars.insert(thread, b));
        }
    }

    /// Makes `message` the preview of `thread`, unless the current one was
    /// sent later.
    fn set_preview(&mut self, thread: &Thread, message: &Message)
        ensures
            final(self)@ == (MainView {
                previews: with_preview(old(self)@.previews, *thread, *message),
                ..old(self)@
            }),
    {
        let newer = match self.previews.get(thread) {
            None => true,
            Some(current) => current.timestamp <= message.timestamp,
        };
        if newer {
            self.previews.insert(*thread, message.duplicate());
        }
    }

    /// Takes in the latest stored message of `thread` as its preview, unless
    /// a later one is known.
    pub fn preview_loaded(&mut self, thread: Thread, message: Message)
        ensures
            final(self)@ == (MainView {
                previews: with_preview(old(self)@.previews, thread, message),
                ..old(self)@
            }),
    {
        self.set_preview(&thread, &message);
    }

    /// Appends `message` to the history of `thread`.
    fn append_history(&mut self, thread: Thread, message: Message)
        ensures
            final(self)@ == (MainView {
                histories: old(self)@.histories.insert(
                    thread,
                    history_of(old(self)@, thread).push(message),
                ),
                ..old(self)@
            }),
    {
        let mut history = match self.histories.remove(&thread) {
            Some(history) => history,
            None => Vec::new(),
        };
        history.push(message);
        let ghost h = history@;
        self.histories.insert(thread, history);
        proof {
            assert(self@.histories =~= old(self)@.histories.insert(thread, h));
        }
    }

    /// Takes in the stored history of `thread`: it is marked as loaded, the
    /// messages that arrived meanwhile are merged into the stored ones, all
    /// are ordered by time, and the latest may become the preview.
    pub fn history_loaded(&mut self, thread: Thread, messages: Vec<Message>)
        ensures
            final(self)@ == after_history(old(self)@, thread, messages@),
    {
        let ghost stored = messages@;
        self.loaded.insert(thread, ());
        let live = match self.histories.remove(&thread) {
            Some(history) => history,
            None => Vec::new(),
        };
        assert(live@ == history_of(old(self)@, thread));
        let mut merged = messages;
        let mut i: usize = 0;
        while i < live.len()
            invariant
                i <= live@.len(),
                merged@ == absorb_all(stored, live@.take(i as int)),
            decreases live.len() - i,
        {
            proof {
                assert(live@.take(i + 1).drop_last() =~= live@.take(i as int));
            }
            absorb_message(&mut merged, live[i].duplicate());
            i = i + 1;
        }
        proof {
            assert(live@.take(live@.len() as int) =~= live@);
        }
        let sorted = sort_by_timestamp(merged);
        let n = sorted.len();
        let last = if n > 0 {
            Some(sorted[n - 1].duplicate())
        } else {
            None
        };
        let ghost h = sorted@;
        self.histories.insert(thread, sorted);
        proof {
            assert(self@.histories =~= old(self)@.histories.insert(thread, h));
            assert(self@.loaded =~= old(self)@.loaded.insert(thread));
        }
        match last {
            Some(last) => self.set_preview(&thread, &last),
            None => {},
        }
    }

    /// Takes in a message that arrived in `thread`. It may become the
    /// preview and comes last in the history; a message from someone else in
    /// a conversation that no pane shows (`visible` is false) counts as
    /// unread.
    pub fn message_received(&mut self, thread: Thread, message: Message, visible: bool)
        requires
            counts_unread(old(self)@, message, visible) ==> unread_of(old(self)@, thread) < u32::MAX,
        ensures
            final(self)@ == after_message(old(self)@, thread, message, visible),
    {
        self.set_preview(&thread, &message);
        if message.sender != self.aci && !visible {
            let count = self.unread_count(&thread);
            self.unread.insert(thread, count + 1);
        }
        self.append_history(thread, message);
    }

    /// Takes in a report that the messages sent at `timestamps` reached
    /// `status`: every message of one's own among them, in every
    /// conversation, takes the status unless it already has it or a later one.
    #[verifier::spinoff_prover]
    pub fn message_status(&mut self, timestamps: &[u64], status: Status)
        ensures
            final(self)@ == after_status(old(self)@, timestamps@, status),
    {
        let mut histories = ThreadMap::new();
        std::mem::swap(&mut histories, &mut self.histories);
        proof {
            histories.lemma_view();
        }
        let ghost orig = histories.entries();
        let mut entries = histories.into_entries();
        let n = entries.len();
        let mut out: Vec<(Thread, Vec<Message>)> = Vec::new();
        while entries.len() > 0
            invariant
                entries@ == orig.take(entries@.len() as int),
                entries@.len() <= orig.len(),
                n == orig.len(),
                out@.len() + entries@.len() == n,
                forall|k: int|
                    0 <= k < out@.len() ==> #[trigger] out@[k].0 == orig[n - 1 - k].0
                        && out@[k].1@ == upgraded_history(
                        orig[n - 1 - k].1@,
                        self.aci,
                        timestamps@,
                        status,
                    ),
            decreases entries@.len(),
        {
            let ghost len = entries@.len();
            let (thread, mut history) = entries.pop().unwrap();
            proof {
                assert(orig[len - 1] == (thread, history));
                assert(entries@ =~= orig.take(len - 1));
            }
            upgrade_statuses(&mut history, self.aci, timestamps, status);
            assert(history@ =~= upgraded_history(orig[len - 1].1@, self.aci, timestamps@, status));
            let ghost upgraded_entry = (thread, history);
            let ghost out_before = out@;
            out.push((thread, history));
            proof {
                assert(out@ == out_before.push(upgraded_entry));
                assert forall|k: int| 0 <= k < out@.len() implies #[trigger] out@[k].0 == orig[n - 1
                    - k].0 && out@[k].1@ == upgraded_history(
                    orig[n - 1 - k].1@,
                    self.aci,
                    timestamps@,
                    status,
                ) by {
                    if k < out_before.len() {
                        assert(out@[k] == out_before[k]);
                    } else {
                        assert(k == out_before.len());
                        assert(n - 1 - k == len - 1);
                    }
                }
            }
        }
        proof {
            lemma_reversed_entries(orig, out@, self.aci, timestamps@, status);
        }
        self.histories = ThreadMap::from_entries(out);
        proof {
            assert(self@.histories =~= old(self)@.histories.map_values(
                |h: Seq<Message>| upgraded_history(h, old(self)@.aci, timestamps@, status),
            ));
        }
    }

    /// The title of a conversation (see `spec_thread_title`).
    pub fn thread_title(&self, thread: &Thread) -> (title: String)
        ensures
            title@ == spec_thread_title(self@.contacts, self@.groups, *thread),
    {
        match thread {
            Thread::Contact(contact) => match contact_name(self.contacts.as_slice(), contact.uuid()) {
                Some(name) => to_string(name),
                None => short_uuid(contact.uuid()),
            },
            Thread::Group(key) => match group_title(self.groups.as_slice(), key) {
                Some(title) => to_string(title),
                None => to_string("Group"),
            },
        }
    }

    /// Records a message of one's own, sent now to `thread`, and gives the
    /// command that sends it.
    fn record_outgoing(&mut self, thread: Thread, body: String, timestamp: u64) -> (command:
        Command)
        ensures
            final(self)@ == recorded(old(self)@, thread, outgoing(old(self)@.aci, body, timestamp)),
            command == (Command::SendText { thread, body, timestamp }),
    {
        let message = Message {
            timestamp,
            sender: self.aci,
            body: body.clone(),
            status: Some(Status::Sending),
        };
        self.set_preview(&thread, &message);
        self.append_history(thread, message);
        Command::SendText { thread, body, timestamp }
    }

    /// Passes what the user did in a pane to its chat, the clock having read
    /// `now` (see `typed_in_pane_at`). When the chat sends a text, the message
    /// is stamped with `now`, recorded as one's own with the status `Sending`,
    /// and the command that sends it comes back.
    pub fn send_in_pane_at(
        &mut self,
        pane: &mut Pane,
        message: chat::Message,
        now: u64,
    ) -> (command: Option<Command>)
        ensures
            typed_in_pane_at(old(self)@, final(self)@, *old(pane), *final(pane), message, now, command),
    {
        let action = pane.update(message);
        match action {
            chat::Action::Nothing => None,
            chat::Action::SendText(body) => {
                let thread = match pane.thread() {
                    Some(thread) => *thread,
                    None => return None,
                };
                Some(self.record_outgoing(thread, body, now))
            },
        }
    }

    /// Passes what the user did in a pane to its chat, reading the clock when
    /// the input is submitted (see `send_in_pane_at` and `clock_millis`).
    pub fn send_in_pane(&mut self, pane: &mut Pane, message: chat::Message) -> (command: Option<
        Command,
    >)
        ensures
            typed_in_pane(old(self)@, final(self)@, *old(pane), *final(pane), message, command),
    {
        let now = match &message {
            chat::Message::Submit => clock_millis(),
            chat::Message::InputChanged(_) => 0,
        };
        self.send_in_pane_at(pane, message, now)
    }

    /// Replaces the contacts and groups with those the store now holds.
    pub fn contacts_updated(&mut self, contacts: Vec<Contact>, groups: Vec<Group>)
        ensures
            final(self)@ == (MainView { contacts: contacts@, groups: groups@, ..old(self)@ }),
    {
        self.contacts = contacts;
        self.groups = groups;
    }

    /// Shows `error` in the banner.
    pub fn show_error(&mut self, error: String)
        ensures
            final(self)@ == (MainView { error: Some(error@), ..old(self)@ }),
    {
        self.error = Some(error);
    }

    /// Hides the error banner.
    pub fn dismiss_error(&mut self)
        ensures
            final(self)@ == (MainView { error: None, ..old(self)@ }),
    {
        self.error = None;
    }
}

} // verus!
