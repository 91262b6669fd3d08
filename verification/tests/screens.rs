use petunia::client::{Petunia, Screen};
use petunia::config::{Axis, Layout};
use petunia::data::{Contact, ContactId, Group, Message, Status, Thread};
use petunia::pane::chat::{Action, Chat, Message as ChatMessage};
use petunia::pane::{Buffer, Pane};
use petunia::screen::linking::State;
use petunia::screen::main::{restore, Configuration};
use petunia::screen::{Linking, Main};
use petunia::signal::{Command, Event};

const ACI: u128 = 100;

fn contact(uuid: u128) -> Thread {
    Thread::Contact(ContactId::Aci(uuid))
}

fn msg(timestamp: u64, sender: u128, body: &str) -> Message {
    Message { timestamp, sender, body: body.into(), status: None }
}

fn layout() -> Layout {
    Layout::Split {
        axis: Axis::Vertical,
        ratio_bits: 0.5f32.to_bits(),
        a: Box::new(Layout::Pane(Some(contact(1)))),
        b: Box::new(Layout::Split {
            axis: Axis::Horizontal,
            ratio_bits: 0.25f32.to_bits(),
            a: Box::new(Layout::Pane(None)),
            b: Box::new(Layout::Pane(Some(Thread::Group([9; 32])))),
        }),
    }
}

fn config_threads(config: &Configuration, out: &mut Vec<Option<Thread>>) {
    match config {
        Configuration::Split { a, b, .. } => {
            config_threads(a, out);
            config_threads(b, out);
        }
        Configuration::Pane(pane) => out.push(pane.thread().copied()),
    }
}

#[test]
fn chat_submit_sends_trimmed_text_and_clears_input() {
    let mut chat = Chat::new(contact(1));
    assert!(matches!(chat.update(ChatMessage::InputChanged("  hello  ".into())), Action::Nothing));
    assert_eq!(chat.input(), "  hello  ");
    match chat.update(ChatMessage::Submit) {
        Action::SendText(body) => assert_eq!(body, "hello"),
        Action::Nothing => panic!("expected a text to send"),
    }
    assert_eq!(chat.input(), "");
}

#[test]
fn chat_submit_of_blank_input_does_nothing() {
    let mut chat = Chat::new(contact(1));
    chat.update(ChatMessage::InputChanged(" \n\t ".into()));
    assert!(matches!(chat.update(ChatMessage::Submit), Action::Nothing));
    assert_eq!(chat.input(), " \n\t ");
}

#[test]
fn empty_pane_ignores_input() {
    let mut pane = Pane::empty();
    assert!(pane.thread().is_none());
    assert!(matches!(pane.update(ChatMessage::Submit), Action::Nothing));
    let chat = Pane::chat(contact(2));
    assert_eq!(chat.thread(), Some(&contact(2)));
    assert!(chat.shows(&contact(2)));
    assert!(!chat.shows(&contact(3)));
}

#[test]
fn restore_round_trips_the_layout() {
    let (config, threads) = restore(&layout());
    assert_eq!(threads, vec![contact(1), Thread::Group([9; 32])]);
    let mut shown = Vec::new();
    config_threads(&config, &mut shown);
    assert_eq!(shown, vec![Some(contact(1)), None, Some(Thread::Group([9; 32]))]);
    match config {
        Configuration::Split { axis, ratio_bits, .. } => {
            assert_eq!(axis, Axis::Vertical);
            assert_eq!(f32::from_bits(ratio_bits), 0.5);
        }
        Configuration::Pane(_) => panic!("expected a split"),
    }
}

#[test]
fn new_main_loads_the_threads_of_its_layout() {
    let saved = layout();
    let (main, commands, _) = Main::new(ACI, Some(&saved));
    let loaded: Vec<Thread> = commands
        .iter()
        .map(|c| match c {
            Command::LoadThread(t) => *t,
            Command::SendText { .. } => panic!("unexpected send"),
        })
        .collect();
    assert_eq!(loaded, vec![contact(1), Thread::Group([9; 32])]);
    assert_eq!(main.aci(), ACI);

    let (_, commands, config) = Main::new(ACI, None);
    assert!(commands.is_empty());
    assert!(matches!(config, Configuration::Pane(Pane { buffer: Buffer::Empty })));
}

#[test]
fn history_load_merges_live_messages_and_orders_by_time() {
    let (mut main, _, _) = Main::new(ACI, None);
    let thread = contact(1);
    main.message_received(thread, msg(30, 1, "live"), true);
    let mut own = msg(10, ACI, "mine");
    own.status = Some(Status::Read);
    main.message_received(thread, own, true);
    main.history_loaded(
        thread,
        vec![msg(20, 1, "stored b"), msg(10, ACI, "mine"), msg(5, 1, "stored a"), msg(20, 2, "same time")],
    );
    let history = main.history(&thread).unwrap();
    let bodies: Vec<&str> = history.iter().map(|m| m.body.as_str()).collect();
    assert_eq!(bodies, vec!["stored a", "mine", "stored b", "same time", "live"]);
    assert_eq!(history[1].status, Some(Status::Read));
    assert_eq!(main.preview(&thread).unwrap().body, "live");
    let (pane, command) = main.open_thread(thread);
    assert!(command.is_none());
    assert_eq!(pane.thread(), Some(&thread));
}

#[test]
fn unread_counts_only_others_messages_in_hidden_threads() {
    let (mut main, _, _) = Main::new(ACI, None);
    let thread = contact(1);
    main.message_received(thread, msg(1, 1, "a"), false);
    main.message_received(thread, msg(2, 1, "b"), false);
    main.message_received(thread, msg(3, ACI, "mine"), false);
    main.message_received(thread, msg(4, 1, "seen"), true);
    assert_eq!(main.unread_count(&thread), 2);
    assert_eq!(main.history(&thread).unwrap().len(), 4);
    let (_, command) = main.open_thread(thread);
    assert!(matches!(command, Some(Command::LoadThread(t)) if t == thread));
    assert_eq!(main.unread_count(&thread), 0);
}

#[test]
fn preview_keeps_the_latest_message() {
    let (mut main, _, _) = Main::new(ACI, None);
    let thread = Thread::Group([3; 32]);
    main.preview_loaded(thread, msg(50, 1, "new"));
    main.preview_loaded(thread, msg(40, 1, "old"));
    assert_eq!(main.preview(&thread).unwrap().body, "new");
    main.preview_loaded(thread, msg(50, 2, "tie"));
    assert_eq!(main.preview(&thread).unwrap().body, "tie");
}

#[test]
fn message_status_only_advances_own_messages() {
    let (mut main, _, _) = Main::new(ACI, None);
    let thread = contact(1);
    let mut sent = msg(10, ACI, "one");
    sent.status = Some(Status::Sent);
    let mut read = msg(11, ACI, "two");
    read.status = Some(Status::Read);
    main.message_received(thread, sent, true);
    main.message_received(thread, read, true);
    main.message_received(thread, msg(10, 1, "theirs"), true);
    main.message_status(&[10, 11], Status::Delivered);
    let history = main.history(&thread).unwrap();
    assert_eq!(history[0].status, Some(Status::Delivered));
    assert_eq!(history[1].status, Some(Status::Read));
    assert_eq!(history[2].status, None);
}

#[test]
fn thread_titles() {
    let (mut main, _, _) = Main::new(ACI, None);
    main.contacts_updated(
        vec![Contact { uuid: 1, name: "Ann".into() }],
        vec![Group { master_key: [4; 32], title: "Team".into() }],
    );
    assert_eq!(main.thread_title(&contact(1)), "Ann");
    assert_eq!(main.thread_title(&contact(0xdeadbeef << 96)), "deadbeef");
    assert_eq!(main.thread_title(&Thread::Group([4; 32])), "Team");
    assert_eq!(main.thread_title(&Thread::Group([5; 32])), "Group");
    assert_eq!(main.contacts().len(), 1);
    assert_eq!(main.groups().len(), 1);
}

#[test]
fn sending_in_a_pane_records_the_message() {
    let (mut main, _, _) = Main::new(ACI, None);
    let thread = contact(1);
    let mut pane = Pane::chat(thread);
    assert!(main.send_in_pane(&mut pane, ChatMessage::InputChanged(" hey ".into())).is_none());
    let command = main.send_in_pane(&mut pane, ChatMessage::Submit).unwrap();
    let (t, body, timestamp) = match command {
        Command::SendText { thread, body, timestamp } => (thread, body, timestamp),
        Command::LoadThread(_) => panic!("expected a send"),
    };
    assert_eq!(t, thread);
    assert_eq!(body, "hey");
    assert!(timestamp > 1_600_000_000_000);
    let history = main.history(&thread).unwrap();
    assert_eq!(history.len(), 1);
    assert_eq!(history[0].timestamp, timestamp);
    assert_eq!(history[0].sender, ACI);
    assert_eq!(history[0].status, Some(Status::Sending));
    assert_eq!(main.preview(&thread).unwrap().body, "hey");

    let mut empty = Pane::empty();
    assert!(main.send_in_pane(&mut empty, ChatMessage::Submit).is_none());
}

#[test]
fn errors_and_avatars() {
    let (mut main, _, _) = Main::new(ACI, None);
    main.show_error("boom".into());
    assert_eq!(main.error(), Some("boom"));
    main.dismiss_error();
    assert_eq!(main.error(), None);
    main.avatar_loaded(contact(1), vec![1, 2, 3]);
    assert_eq!(main.avatar(&contact(1)), Some(&vec![1, 2, 3]));
    assert_eq!(main.avatar(&contact(2)), None);
}

#[test]
fn linking_shows_code_or_failure() {
    let mut linking = Linking::new();
    assert!(matches!(linking.state, State::Connecting));
    linking.set_url("sgnl://linkdevice?uuid=abc&pub_key=def");
    assert!(matches!(linking.state, State::Url(_)));
    linking.set_url(&"x".repeat(8000));
    match &linking.state {
        State::Failed(reason) => assert_eq!(reason, "failed to render the provisioning QR code"),
        _ => panic!("expected a failure"),
    }
    linking.fail("lost".into());
    assert!(matches!(&linking.state, State::Failed(r) if r == "lost"));
}

#[test]
fn client_links_and_delivers_commands_when_ready() {
    let mut client = Petunia::new();
    assert!(matches!(client.screen(), Screen::Linking(_)));
    client.on_signal(Event::LinkUrl("sgnl://linkdevice?x".into()), None, &[]);
    assert!(matches!(client.screen(), Screen::Linking(l) if matches!(l.state, State::Url(_))));

    let (tx, mut rx) = tokio::sync::mpsc::unbounded_channel();
    client.on_signal(Event::Ready(tx), None, &[]);
    let saved = layout();
    let (commands, config) = client.on_signal(Event::Linked { aci: ACI }, Some(&saved), &[]);
    assert_eq!(commands.len(), 2);
    assert!(config.is_some());
    assert!(matches!(rx.try_recv(), Ok(Command::LoadThread(t)) if t == contact(1)));
    assert!(matches!(rx.try_recv(), Ok(Command::LoadThread(t)) if t == Thread::Group([9; 32])));
    assert!(rx.try_recv().is_err());

    let event = Event::Message { thread: contact(5), message: msg(1, 5, "hi") };
    assert!(client.can_accept(&event, &[]));
    client.on_signal(event, None, &[]);
    client.on_signal(Event::Message { thread: contact(5), message: msg(2, 5, "seen") }, None, &[contact(5)]);
    match client.screen() {
        Screen::Main(main) => {
            assert_eq!(main.unread_count(&contact(5)), 1);
            assert_eq!(main.history(&contact(5)).unwrap().len(), 2);
        }
        Screen::Linking(_) => panic!("expected the main screen"),
    }

    let (pane, command) = client.open_thread(contact(5));
    assert!(pane.is_some());
    assert!(matches!(command, Some(Command::LoadThread(_))));
    assert!(matches!(rx.try_recv(), Ok(Command::LoadThread(t)) if t == contact(5)));

    let mut pane = pane.unwrap();
    client.send_in_pane(&mut pane, ChatMessage::InputChanged("yo".into()));
    let sent = client.send_in_pane(&mut pane, ChatMessage::Submit);
    assert!(matches!(sent, Some(Command::SendText { .. })));
    assert!(matches!(rx.try_recv(), Ok(Command::SendText { body, .. }) if body == "yo"));

    client.on_signal(Event::Error("bad".into()), None, &[]);
    match client.screen() {
        Screen::Main(main) => assert_eq!(main.error(), Some("bad")),
        Screen::Linking(_) => panic!("expected the main screen"),
    }
    client.dismiss_error();
    match client.screen() {
        Screen::Main(main) => assert_eq!(main.error(), None),
        Screen::Linking(_) => panic!("expected the main screen"),
    }
}

#[test]
fn client_commands_are_dropped_before_ready_and_errors_fail_linking() {
    let mut client = Petunia::new();
    let saved = layout();
    let (commands, _) = client.on_signal(Event::Linked { aci: ACI }, Some(&saved), &[]);
    assert_eq!(commands.len(), 2);

    let mut other = Petunia::new();
    other.on_signal(Event::Error("no network".into()), None, &[]);
    assert!(matches!(other.screen(), Screen::Linking(l) if matches!(&l.state, State::Failed(r) if r == "no network")));
    let (pane, command) = other.open_thread(contact(1));
    assert!(pane.is_none() && command.is_none());
}

#[test]
fn sending_at_a_given_time_stamps_the_text_with_it() {
    let (mut main, _, _) = Main::new(ACI, None);
    let thread = contact(1);
    let mut pane = Pane::chat(thread);
    assert!(main.send_in_pane_at(&mut pane, ChatMessage::InputChanged(" hey ".into()), 7).is_none());
    let command = main.send_in_pane_at(&mut pane, ChatMessage::Submit, 42).unwrap();
    match command {
        Command::SendText { thread: t, body, timestamp } => {
            assert_eq!(t, thread);
            assert_eq!(body, "hey");
            assert_eq!(timestamp, 42);
        }
        Command::LoadThread(_) => panic!("expected a send"),
    }
    assert_eq!(main.history(&thread).unwrap()[0].timestamp, 42);
    match &pane.buffer {
        Buffer::Chat(chat) => assert_eq!(chat.input(), ""),
        Buffer::Empty => panic!("expected a chat"),
    }
    main.send_in_pane_at(&mut pane, ChatMessage::InputChanged("\u{3000} \t".into()), 0);
    assert!(main.send_in_pane_at(&mut pane, ChatMessage::Submit, 43).is_none());
    assert_eq!(main.history(&thread).unwrap().len(), 1);
}

#[test]
fn a_loaded_conversation_stays_loaded() {
    let (mut main, _, _) = Main::new(ACI, None);
    let thread = contact(1);
    assert!(matches!(main.open_thread(thread).1, Some(Command::LoadThread(t)) if t == thread));
    main.history_loaded(thread, vec![msg(5, 1, "a")]);
    main.message_received(thread, msg(6, 1, "b"), false);
    main.message_status(&[5], Status::Read);
    assert!(main.open_thread(thread).1.is_none());
    assert!(main.open_thread(contact(2)).1.is_some());
}
