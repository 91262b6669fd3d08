use std::collections::HashMap;

use petunia::data::history::{own_message_timestamps, sort_by_timestamp};
use petunia::data::{ContactId, Content, ContentBody, Message, ReceiptKind, Status, Thread};
use petunia::signal::status::{from_int, placeholders, status_query, take_rows, to_int, STATUS_CHUNK};
use petunia::signal::worker::{
    apply_stored_statuses, avatar_event, delivery_report, group_key, has_group_avatar,
    history_messages, incoming,
    last_message, outgoing_destination, sidebar_threads, Outbox,
};
use petunia::signal::Event;

fn content(timestamp: u64, sender: u128, body: Option<&str>) -> Content {
    Content {
        timestamp,
        sender,
        thread: Some(Thread::Contact(ContactId::Aci(sender))),
        body: ContentBody::DataMessage { body: body.map(|b| b.to_string()) },
    }
}

fn msg(timestamp: u64, sender: u128, body: &str) -> Message {
    Message { timestamp, sender, body: body.into(), status: None }
}

#[test]
fn status_ints_round_trip() {
    let all = [Status::Sending, Status::Failed, Status::Sent, Status::Delivered, Status::Read];
    for (i, status) in all.iter().enumerate() {
        assert_eq!(to_int(*status), i as i64);
        assert_eq!(from_int(i as i64), Some(*status));
    }
    assert_eq!(from_int(5), None);
    assert_eq!(from_int(-1), None);
}

#[test]
fn status_query_lists_placeholders() {
    assert_eq!(STATUS_CHUNK, 500);
    assert_eq!(placeholders(0), "");
    assert_eq!(placeholders(1), "?");
    assert_eq!(placeholders(3), "?,?,?");
    assert_eq!(
        status_query(2),
        "SELECT timestamp, status FROM petunia_message_status\n                WHERE timestamp IN (?,?)"
    );
}

#[test]
fn rows_are_read_into_statuses() {
    let mut statuses = HashMap::new();
    take_rows(&mut statuses, &[(10, 2), (11, 9), (-1, 4), (10, 3)]);
    assert_eq!(statuses.len(), 2);
    assert_eq!(statuses.get(&10), Some(&Status::Delivered));
    assert_eq!(statuses.get(&u64::MAX), Some(&Status::Read));
    assert_eq!(statuses.get(&11), None);
}

#[test]
fn outbox_holds_texts_until_the_queue_is_drained() {
    let mut outbox = Outbox::new();
    assert!(!outbox.is_drained());
    let thread = Thread::Group([1; 32]);
    assert!(outbox.submit((thread, "one".into(), 1)).is_none());
    assert!(outbox.submit((thread, "two".into(), 2)).is_none());
    let released = outbox.queue_drained();
    assert!(outbox.is_drained());
    let bodies: Vec<&str> = released.iter().map(|(_, b, _)| b.as_str()).collect();
    assert_eq!(bodies, vec!["one", "two"]);
    let now = outbox.submit((thread, "three".into(), 3)).unwrap();
    assert_eq!(now.1, "three");
    assert!(outbox.queue_drained().is_empty());
}

#[test]
fn stored_history_is_ordered_and_skips_non_text() {
    let contents = vec![
        content(30, 1, Some("c")),
        content(10, 1, Some("a")),
        content(20, 1, None),
        content(10, 2, Some("b")),
        Content { timestamp: 5, sender: 1, thread: None, body: ContentBody::Other },
    ];
    let messages = history_messages(&contents);
    let bodies: Vec<&str> = messages.iter().map(|m| m.body.as_str()).collect();
    assert_eq!(bodies, vec!["a", "b", "c"]);
}

#[test]
fn last_message_is_the_last_of_the_latest() {
    let contents = vec![content(30, 1, Some("x")), content(10, 1, Some("y")), content(30, 2, Some("z"))];
    assert_eq!(last_message(&contents).unwrap().body, "z");
    assert!(last_message(&[]).is_none());
}

#[test]
fn stored_statuses_apply_to_own_messages() {
    let aci = 9;
    let mut messages = vec![msg(1, aci, "a"), msg(2, aci, "b"), msg(3, aci, "c"), msg(4, 1, "d")];
    assert_eq!(own_message_timestamps(&messages, aci), vec![1, 2, 3]);
    let mut stored = HashMap::new();
    stored.insert(1, Status::Sending);
    stored.insert(2, Status::Read);
    stored.insert(4, Status::Read);
    apply_stored_statuses(&mut messages, aci, &stored);
    assert_eq!(messages[0].status, Some(Status::Failed));
    assert_eq!(messages[1].status, Some(Status::Read));
    assert_eq!(messages[2].status, Some(Status::Sent));
    assert_eq!(messages[3].status, None);
}

#[test]
fn sort_by_timestamp_is_stable() {
    let sorted = sort_by_timestamp(vec![msg(2, 1, "x"), msg(1, 1, "y"), msg(2, 2, "z"), msg(1, 3, "w")]);
    let bodies: Vec<&str> = sorted.iter().map(|m| m.body.as_str()).collect();
    assert_eq!(bodies, vec!["y", "w", "x", "z"]);
}

#[test]
fn incoming_reports_receipts_before_messages() {
    let receipt = Content {
        timestamp: 1,
        sender: 2,
        thread: Some(Thread::Group([0; 32])),
        body: ContentBody::Receipt { kind: ReceiptKind::Delivery, timestamps: vec![5, 6] },
    };
    match incoming(&receipt) {
        Some(Event::MessageStatus { timestamps, status }) => {
            assert_eq!(timestamps, vec![5, 6]);
            assert_eq!(status, Status::Delivered);
        }
        _ => panic!("expected a status"),
    }
    match incoming(&content(7, 3, Some("hello"))) {
        Some(Event::Message { thread, message }) => {
            assert_eq!(thread, Thread::Contact(ContactId::Aci(3)));
            assert_eq!(message.body, "hello");
        }
        _ => panic!("expected a message"),
    }
    let viewed = Content {
        timestamp: 1,
        sender: 2,
        thread: None,
        body: ContentBody::Receipt { kind: ReceiptKind::Viewed, timestamps: vec![5] },
    };
    assert!(incoming(&viewed).is_none());
    assert!(incoming(&content(7, 3, None)).is_none());
}

#[test]
fn delivery_reports() {
    match delivery_report(42, true) {
        Event::MessageStatus { timestamps, status } => {
            assert_eq!(timestamps, vec![42]);
            assert_eq!(status, Status::Sent);
        }
        _ => panic!("expected a status"),
    }
    assert!(matches!(delivery_report(42, false), Event::MessageStatus { status: Status::Failed, .. }));
}

#[test]
fn destinations_keys_and_sidebar_threads() {
    let key = [3; 32];
    assert_eq!(outgoing_destination(&Thread::Group(key), 7), ContactId::Aci(7));
    assert_eq!(outgoing_destination(&Thread::Contact(ContactId::Pni(8)), 7), ContactId::Pni(8));
    assert_eq!(group_key(&Thread::Group(key)), Some(key));
    assert_eq!(group_key(&Thread::Contact(ContactId::Aci(1))), None);
    assert_eq!(
        sidebar_threads(&[1, 2], &[key]),
        vec![
            Thread::Contact(ContactId::Aci(1)),
            Thread::Contact(ContactId::Aci(2)),
            Thread::Group(key)
        ]
    );
}

#[test]
fn avatar_events_need_bytes() {
    let thread = Thread::Group([1; 32]);
    assert!(avatar_event(thread, None).is_none());
    assert!(avatar_event(thread, Some(Vec::new())).is_none());
    assert!(matches!(avatar_event(thread, Some(vec![1])), Some(Event::Avatar { bytes, .. }) if bytes == vec![1]));
}

#[test]
fn group_avatars_are_fetched_when_named() {
    assert!(has_group_avatar("groups/avatar/1"));
    assert!(!has_group_avatar(""));
}

#[test]
fn clock_readings_become_timestamps() {
    assert_eq!(petunia::clock::epoch_millis(Some(1_700_000_000_123)), 1_700_000_000_123);
    assert_eq!(petunia::clock::epoch_millis(Some(u64::MAX as u128)), u64::MAX);
    assert_eq!(petunia::clock::epoch_millis(Some(u64::MAX as u128 + 1)), u64::MAX);
    assert_eq!(petunia::clock::epoch_millis(None), 0);
    assert!(petunia::clock::clock_millis() > 1_600_000_000_000);
}
