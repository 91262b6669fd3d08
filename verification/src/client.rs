//! The client as a whole: which screen it shows, and how it answers the
//! events of the Signal worker.

use vstd::prelude::*;

use tokio::sync::mpsc::UnboundedSender;

use crate::config::{layout_threads, Layout};
use crate::data::{Contact, Group, Thread};
use crate::pane::{chat, Buffer, Pane};
use crate::screen::linking::{shows_url, State};
use crate::screen::main::{
    after_history, after_message, after_status, config_layout, counts_unread, fresh, history_of,
    load_commands, new_main, typed_in_pane, unread_of, with_preview, Configuration, MainView,
};
use crate::screen::{Linking, Main};
use crate::signal::event::deliver;
use crate::signal::{Command, Event};

verus! {

/// The screen the client shows.
pub enum Screen {
    Linking(Linking),
    Main(Box<Main>),
}

/// The client: its screen, and the channel to the Signal worker once the
/// worker is ready.
pub struct Petunia {
    screen: Screen,
    commands: Option<UnboundedSender<Command>>,
    /// Every command passed to `deliver` so far, in order.
    handed: Ghost<Seq<Command>>,
}

/// The command in `command`, if any, as a sequence.
pub open spec fn option_seq(command: Option<Command>) -> Seq<Command> {
    match command {
        Some(c) => seq![c],
        None => Seq::empty(),
    }
}

impl Command {
    /// A copy of the command, equal to it.
    pub fn duplicate(&self) -> (copy: Command)
        ensures
            copy == *self,
    {
        match self {
            Command::SendText { thread, body, timestamp } => Command::SendText {
                thread: *thread,
                body: body.clone(),
                timestamp: *timestamp,
            },
            Command::LoadThread(thread) => Command::LoadThread(*thread),
        }
    }
}

/// The effect of a worker event on the screen, from `before` to `after`.
/// `shown` lists the conversations that the panes show; `layout` is the
/// saved layout of the panes.
pub open spec fn screen_step(
    before: Screen,
    after: Screen,
    event: Event,
    layout: Option<Layout>,
    shown: Seq<Thread>,
) -> bool {
    match event {
        Event::Ready(_) => after == before,
        Event::LinkUrl(url) => match before {
            Screen::Linking(_) => after matches Screen::Linking(l) && shows_url(l.state, url@),
            Screen::Main(_) => after == before,
        },
        Event::Linked { aci } => after matches Screen::Main(m) && m@ == new_main(aci),
        Event::Contacts { contacts, groups } => match before {
            Screen::Linking(_) => after == before,
            Screen::Main(m) => after matches Screen::Main(m2) && m2@ == (MainView {
                contacts: contacts@,
                groups: groups@,
                ..m@
            }),
        },
        Event::History { thread, messages } => match before {
            Screen::Linking(_) => after == before,
            Screen::Main(m) => after matches Screen::Main(m2) && m2@ == after_history(
                m@,
                thread,
                messages@,
            ),
        },
        Event::Message { thread, message } => match before {
            Screen::Linking(_) => after == before,
            Screen::Main(m) => after matches Screen::Main(m2) && m2@ == after_message(
                m@,
                thread,
                message,
                shown.contains(thread),
            ),
        },
        Event::MessageStatus { timestamps, status } => match before {
            Screen::Linking(_) => after == before,
            Screen::Main(m) => after matches Screen::Main(m2) && m2@ == after_status(
                m@,
                timestamps@,
                status,
            ),
        },
        Event::Avatar { thread, bytes } => match before {
            Screen::Linking(_) => after == before,
            Screen::Main(m) => after matches Screen::Main(m2) && m2@ == (MainView {
                avatars: m@.avatars.insert(thread, bytes@),
                ..m@
            }),
        },
        Event::Preview { thread, message } => match before {
            Screen::Linking(_) => after == before,
            Screen::Main(m) => after matches Screen::Main(m2) && m2@ == (MainView {
                previews: with_preview(m@.previews, thread, message),
                ..m@
            }),
        },
        Event::Error(error) => match before {
            Screen::Linking(_) => after == Screen::Linking(Linking { state: State::Failed(error) }),
            Screen::Main(m) => after matches Screen::Main(m2) && m2@ == (MainView {
                error: Some(error@),
                ..m@
            }),
        },
    }
}

/// The law of contact syncs: after a `Contacts` event, the main screen holds
/// exactly the contacts and groups that the event carries, and nothing else
/// on it changes; the linking screen ignores the event.
pub proof fn lemma_contacts_event_replaces_lists(
    before: Screen,
    after: Screen,
    contacts: Vec<Contact>,
    groups: Vec<Group>,
    layout: Option<Layout>,
    shown: Seq<Thread>,
)
    requires
        screen_step(before, after, Event::Contacts { contacts, groups }, layout, shown),
    ensures
        before is Linking ==> after == before,
        before matches Screen::Main(m) ==> (after matches Screen::Main(m2) && m2@.contacts
            == contacts@ && m2@.groups == groups@ && m2@.aci == m@.aci && m2@.histories
            == m@.histories && m2@.previews == m@.previews && m2@.unread == m@.unread
            && m2@.loaded == m@.loaded && m2@.avatars == m@.avatars && m2@.error == m@.error),
{
}

/// The law of worker events on the screen: only `Linked` switches screens,
/// always to an empty main screen of the linked account; `Ready` changes
/// nothing on the screen; the linking screen takes in only the provisioning
/// URL and errors (which make it fail), and the main screen ignores the URL;
/// on the main screen a message arrives last in its conversation and counts
/// as unread exactly when it is someone else's and no pane shows it (while
/// the count is below `u32::MAX`, which `accepts` keeps it), a loaded
/// history marks its conversation as loaded, an avatar is kept for its
/// conversation, a preview makes the conversation have one, and an error is
/// shown in the banner.
pub proof fn lemma_screen_step_law(
    before: Screen,
    after: Screen,
    event: Event,
    layout: Option<Layout>,
    shown: Seq<Thread>,
)
    requires
        screen_step(before, after, event, layout, shown),
    ensures
        event is Ready ==> after == before,
        event matches Event::Linked { aci } ==> (after matches Screen::Main(m2) && m2@.aci == aci
            && m2@.contacts.len() == 0 && m2@.groups.len() == 0 && m2@.histories.dom().is_empty()
            && m2@.unread.dom().is_empty() && m2@.loaded.is_empty() && m2@.error is None),
        !(event is Linked) ==> (before is Linking <==> after is Linking),
        before is Linking && !(event is Linked || event is LinkUrl || event is Error) ==> after
            == before,
        before is Main && event is LinkUrl ==> after == before,
        event matches Event::Error(error) ==> match before {
            Screen::Linking(_) => after == Screen::Linking(Linking { state: State::Failed(error) }),
            Screen::Main(_) => after matches Screen::Main(m2) && m2@.error == Some(error@),
        },
        event matches Event::Message { thread, message } ==> (before matches Screen::Main(m) ==> (
        after matches Screen::Main(m2) && history_of(m2@, thread) == history_of(m@, thread).push(
            message,
        ) && (unread_of(m@, thread) < u32::MAX ==> unread_of(m2@, thread) == (if message.sender
            != m@.aci && !shown.contains(thread) {
            unread_of(m@, thread) + 1
        } else {
            unread_of(m@, thread) as int
        })) && m2@.loaded == m@.loaded)),
        event matches Event::History { thread, messages } ==> (before is Main ==> (
        after matches Screen::Main(m2) && m2@.loaded.contains(thread))),
        event matches Event::Avatar { thread, bytes } ==> (before is Main ==> (
        after matches Screen::Main(m2) && m2@.avatars.contains_key(thread) && m2@.avatars[thread]
            == bytes@)),
        event matches Event::Preview { thread, message } ==> (before is Main ==> (
        after matches Screen::Main(m2) && m2@.previews.contains_key(thread))),
{
    match event {
        Event::Linked { aci } => {
            assert(new_main(aci).histories.dom() =~= Set::<Thread>::empty());
            assert(new_main(aci).unread.dom() =~= Set::<Thread>::empty());
        },
        _ => {},
    }
}

/// Whether `threads` holds `thread`.
fn shows_thread(threads: &[Thread], thread: &Thread) -> (found: bool)
    ensures
        found == threads@.contains(*thread),
{
    let mut i: usize = 0;
    while i < threads.len()
        invariant
            i <= threads@.len(),
            forall|j: int| 0 <= j < i ==> threads@[j] != *thread,
        decreases threads.len() - i,
    {
        if threads[i].same(thread) {
            assert(threads@[i as int] == *thread);
            return true;
        }
        i = i + 1;
    }
    false
}

impl Petunia {
    /// The screen the client shows.
    pub closed spec fn spec_screen(&self) -> Screen {
        self.screen
    }

    /// Whether the worker has handed over its command channel.
    pub closed spec fn ready(&self) -> bool {
        self.commands is Some
    }

    /// The channel to the worker, once the worker has handed it over.
    pub closed spec fn channel(&self) -> Option<UnboundedSender<Command>> {
        self.commands
    }

    /// Every command passed to `deliver` (tokio's `UnboundedSender::send` on
    /// the worker's channel) so far, in order. The log is kept by `send`
    /// beside the call; what the channel does with a command is not known
    /// here.
    pub closed spec fn handed(&self) -> Seq<Command> {
        self.handed@
    }

    /// Whether the client can take in `event`: a message that counts as
    /// unread must leave room in the unread count of its conversation.
    pub open spec fn accepts(&self, event: Event, shown: Seq<Thread>) -> bool {
        match (event, self.spec_screen()) {
            (Event::Message { thread, message }, Screen::Main(m)) => counts_unread(
                m@,
                message,
                shown.contains(thread),
            ) ==> unread_of(m@, thread) < u32::MAX,
            _ => true,
        }
    }

    /// A client on the linking screen, waiting for the worker.
    pub fn new() -> (client: Petunia)
        ensures
            !client.ready(),
            client.handed() == Seq::<Command>::empty(),
            client.spec_screen() matches Screen::Linking(l) && l.state is Connecting,
    {
        Petunia { screen: Screen::Linking(Linking::new()), commands: None, handed: Ghost(Seq::empty()) }
    }

    /// The screen the client shows.
    pub fn screen(&self) -> (screen: &Screen)
        ensures
            *screen == self.spec_screen(),
    {
        &self.screen
    }

    /// Whether the client can take in `event` (see `accepts`).
    pub fn can_accept(&self, event: &Event, shown: &[Thread]) -> (accepts: bool)
        ensures
            accepts == self.accepts(*event, shown@),
    {
        match (event, &self.screen) {
            (Event::Message { thread, message }, Screen::Main(m)) => {
                let visible = shows_thread(shown, thread);
                !(message.sender != m.aci() && !visible) || m.unread_count(thread) < u32::MAX
            },
            _ => true,
        }
    }

    /// Passes `command` to `deliver` on the worker's channel, recording it in
    /// `handed`, or drops it when the worker is not ready yet.
    pub fn send(&mut self, command: Command)
        ensures
            final(self).handed() == (if old(self).ready() {
                old(self).handed().push(command)
            } else {
                old(self).handed()
            }),
            final(self).spec_screen() == old(self).spec_screen(),
            final(self).channel() == old(self).channel(),
    {
        match &self.commands {
            Some(sender) => {
                let ghost handed_now = command;
                deliver(sender, command);
                self.handed = Ghost(self.handed@.push(handed_now));
            },
            None => {},
        }
    }

    /// Opens `thread` in the focused pane of the main screen (see
    /// `Main::open_thread`), handing the command that loads it, if any, to the
    /// worker. The pane to put in focus comes back, with the command; on the
    /// linking screen nothing happens.
    pub fn open_thread(&mut self, thread: Thread) -> (opened: (Option<Pane>, Option<Command>))
        ensures
            final(self).ready() == old(self).ready(),
            final(self).channel() == old(self).channel(),
            final(self).handed() == old(self).handed() + (if old(self).ready() {
                option_seq(opened.1)
            } else {
                Seq::empty()
            }),
            match old(self).spec_screen() {
                Screen::Linking(_) => {
                    &&& final(self).spec_screen() == old(self).spec_screen()
                    &&& opened.0 is None
                    &&& opened.1 is None
                },
                Screen::Main(m) => final(self).spec_screen() matches Screen::Main(m2) && {
                    &&& m2@ == (MainView { unread: m@.unread.remove(thread), ..m@ })
                    &&& opened.0 matches Some(pane) && pane.buffer matches Buffer::Chat(chat)
                        && chat.thread == thread && chat.input_text() == Seq::<char>::empty()
                    &&& opened.1 == (if m@.loaded.contains(thread) {
                        None
                    } else {
                        Some(Command::LoadThread(thread))
                    })
                },
            },
    {
        let mut sent: Option<Command> = None;
        let mut pane: Option<Pane> = None;
        if let Screen::Main(main) = &mut self.screen {
            let (opened, command) = main.open_thread(thread);
            pane = Some(opened);
            sent = command;
        }
        match &sent {
            Some(command) => self.send(command.duplicate()),
            None => {},
        }
        (pane, sent)
    }

    /// Passes what the user did in a pane of the main screen to its chat (see
    /// `typed_in_pane`), handing the command that sends a text, if any, to the
    /// worker; the command comes back. On the linking screen nothing happens.
    pub fn send_in_pane(&mut self, pane: &mut Pane, message: chat::Message) -> (command: Option<
        Command,
    >)
        ensures
            final(self).ready() == old(self).ready(),
            final(self).channel() == old(self).channel(),
            final(self).handed() == old(self).handed() + (if old(self).ready() {
                option_seq(command)
            } else {
                Seq::empty()
            }),
            match old(self).spec_screen() {
                Screen::Linking(_) => {
                    &&& final(self).spec_screen() == old(self).spec_screen()
                    &&& *final(pane) == *old(pane)
                    &&& command is None
                },
                Screen::Main(m) => final(self).spec_screen() matches Screen::Main(m2)
                    && typed_in_pane(m@, m2@, *old(pane), *final(pane), message, command),
            },
    {
        let mut command: Option<Command> = None;
        if let Screen::Main(main) = &mut self.screen {
            command = main.send_in_pane(pane, message);
        }
        match &command {
            Some(c) => self.send(c.duplicate()),
            None => {},
        }
        command
    }

    /// Hides the error banner of the main screen.
    pub fn dismiss_error(&mut self)
        ensures
            final(self).ready() == old(self).ready(),
            final(self).channel() == old(self).channel(),
            final(self).handed() == old(self).handed(),
            match old(self).spec_screen() {
                Screen::Linking(_) => final(self).spec_screen() == old(self).spec_screen(),
                Screen::Main(m) => final(self).spec_screen() matches Screen::Main(m2)
                    && m2@ == (MainView { error: None, ..m@ }),
            },
    {
        if let Screen::Main(main) = &mut self.screen {
            main.dismiss_error();
        }
    }

    /// Answers an event of the worker (see `screen_step`). When the account
    /// is linked, the main screen replaces the linking screen, its panes are
    /// those of the saved `layout` (or one empty pane), and the commands that
    /// load the conversations they show are issued. The commands issued come
    /// back; they are handed to the worker when it is ready. `shown` lists the
    /// conversations that the panes show.
    pub fn on_signal(&mut self, event: Event, layout: Option<&Layout>, shown: &[Thread]) -> (outcome:
        (Vec<Command>, Option<Configuration>))
        requires
            old(self).accepts(event, shown@),
        ensures
            screen_step(
                old(self).spec_screen(),
                final(self).spec_screen(),
                event,
                match layout {
                    Some(l) => Some(*l),
                    None => None,
                },
                shown@,
            ),
            final(self).ready() == (old(self).ready() || event is Ready),
            final(self).channel() == (match event {
                Event::Ready(sender) => Some(sender),
                _ => old(self).channel(),
            }),
            final(self).handed() == (if old(self).ready() {
                old(self).handed() + outcome.0@
            } else {
                old(self).handed()
            }),
            match event {
                Event::Linked { .. } => outcome.1 matches Some(config) && fresh(config) && match layout {
                    Some(l) => {
                        &&& config_layout(config) == *l
                        &&& outcome.0@ == load_commands(layout_threads(*l))
                    },
                    None => {
                        &&& config matches Configuration::Pane(pane) && pane.buffer is Empty
                        &&& outcome.0@ == Seq::<Command>::empty()
                    },
                },
                _ => outcome.0@ == Seq::<Command>::empty() && outcome.1 is None,
            },
    {
        match event {
            Event::Ready(sender) => {
                self.commands = Some(sender);
                (Vec::new(), None)
            },
            Event::LinkUrl(url) => {
                if let Screen::Linking(linking) = &mut self.screen {
                    linking.set_url(url.as_str());
                }
                (Vec::new(), None)
            },
            Event::Linked { aci } => {
                let (main, commands, configuration) = Main::new(aci, layout);
                self.screen = Screen::Main(Box::new(main));
                let ghost screen = self.spec_screen();
                let ghost start = self.handed();
                let mut i: usize = 0;
                while i < commands.len()
                    invariant
                        i <= commands@.len(),
                        self.spec_screen() == screen,
                        self.channel() == old(self).channel(),
                        self.ready() == old(self).ready(),
                        self.handed() == (if self.ready() {
                            start + commands@.take(i as int)
                        } else {
                            start
                        }),
                    decreases commands.len() - i,
                {
                    self.send(commands[i].duplicate());
                    proof {
                        assert(commands@.take(i + 1) =~= commands@.take(i as int).push(commands@[i as int]));
                    }
                    i = i + 1;
                }
                proof {
                    assert(commands@.take(commands@.len() as int) =~= commands@);
                }
                (commands, Some(configuration))
            },
            Event::Contacts { contacts, groups } => {
                if let Screen::Main(main) = &mut self.screen {
                    main.contacts_updated(contacts, groups);
                }
                (Vec::new(), None)
            },
            Event::History { thread, messages } => {
                if let Screen::Main(main) = &mut self.screen {
                    main.history_loaded(thread, messages);
                }
                (Vec::new(), None)
            },
            Event::Message { thread, message } => {
                let visible = shows_thread(shown, &thread);
                if let Screen::Main(main) = &mut self.screen {
                    main.message_received(thread, message, visible);
                }
                (Vec::new(), None)
            },
            Event::MessageStatus { timestamps, status } => {
                if let Screen::Main(main) = &mut self.screen {
                    main.message_status(timestamps.as_slice(), status);
                }
                (Vec::new(), None)
            },
            Event::Avatar { thread, bytes } => {
                if let Screen::Main(main) = &mut self.screen {
                    main.avatar_loaded(thread, bytes);
                }
                (Vec::new(), None)
            },
            Event::Preview { thread, message } => {
                if let Screen::Main(main) = &mut self.screen {
                    main.preview_loaded(thread, message);
                }
                (Vec::new(), None)
            },
            Event::Error(error) => {
                match &mut self.screen {
                    Screen::Linking(linking) => linking.fail(error),
                    Screen::Main(main) => main.show_error(error),
                }
                (Vec::new(), None)
            },
        }
    }
}

} // verus!
