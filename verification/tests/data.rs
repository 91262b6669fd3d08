use petunia::data::thread_map::ThreadMap;
use petunia::data::{
    contact_name, from_content, receipt_from_content, Contact, ContactId, Content, ContentBody,
    Message, ReceiptKind, Status, Thread,
};
use uuid::Uuid;

fn text_message(sender: u128, timestamp: u64, body: &str) -> Content {
    Content {
        timestamp,
        sender,
        thread: Some(Thread::Contact(ContactId::Aci(sender))),
        body: ContentBody::DataMessage { body: Some(body.to_string()) },
    }
}

#[test]
fn maps_incoming_text_to_contact_thread() {
    let sender = Uuid::new_v4().as_u128();
    let (thread, message) = from_content(&text_message(sender, 1234, "hi")).unwrap();

    assert_eq!(thread, Thread::Contact(ContactId::Aci(sender)));
    assert_eq!(message.sender, sender);
    assert_eq!(message.timestamp, 1234);
    assert_eq!(message.body, "hi");
}

#[test]
fn maps_group_message_to_group_thread() {
    let sender = Uuid::new_v4().as_u128();
    let master_key = [7u8; 32];
    let content = Content {
        timestamp: 1234,
        sender,
        thread: Some(Thread::Group(master_key)),
        body: ContentBody::DataMessage { body: Some("hello group".into()) },
    };

    let (thread, message) = from_content(&content).unwrap();
    assert_eq!(thread, Thread::Group(master_key));
    assert_eq!(message.body, "hello group");
}

#[test]
fn maps_synced_sent_message_to_destination_thread() {
    let own = Uuid::new_v4().as_u128();
    let destination = Uuid::new_v4().as_u128();
    let content = Content {
        timestamp: 9999,
        sender: own,
        thread: Some(Thread::Contact(ContactId::Aci(destination))),
        body: ContentBody::SentSync { body: Some("from my phone".into()) },
    };

    let (thread, message) = from_content(&content).unwrap();
    assert_eq!(thread, Thread::Contact(ContactId::Aci(destination)));
    assert_eq!(message.sender, own);
    assert_eq!(message.timestamp, 9999);
    assert_eq!(message.body, "from my phone");
}

#[test]
fn maps_read_receipt_to_statuses() {
    let content = Content {
        timestamp: 9999,
        sender: Uuid::new_v4().as_u128(),
        thread: None,
        body: ContentBody::Receipt { kind: ReceiptKind::Read, timestamps: vec![1234, 5678] },
    };
    let receipt = receipt_from_content(&content);
    assert_eq!(receipt.as_ref().map(|(t, _)| t.clone()), Some(vec![1234, 5678]));
    assert_eq!(receipt.map(|(_, s)| s), Some(Status::Read));
}

#[test]
fn ignores_data_message_without_body() {
    let content = Content {
        timestamp: 1234,
        sender: Uuid::new_v4().as_u128(),
        thread: Some(Thread::Contact(ContactId::Aci(1))),
        body: ContentBody::DataMessage { body: None },
    };
    assert!(from_content(&content).is_none());
}

#[test]
fn delivery_receipt_maps_to_delivered_and_viewed_is_ignored() {
    let delivery = Content {
        timestamp: 1,
        sender: 2,
        thread: None,
        body: ContentBody::Receipt { kind: ReceiptKind::Delivery, timestamps: vec![7] },
    };
    let (timestamps, status) = receipt_from_content(&delivery).unwrap();
    assert_eq!(timestamps, vec![7]);
    assert_eq!(status, Status::Delivered);

    let viewed = Content {
        timestamp: 1,
        sender: 2,
        thread: None,
        body: ContentBody::Receipt { kind: ReceiptKind::Viewed, timestamps: vec![7] },
    };
    assert!(receipt_from_content(&viewed).is_none());
    assert!(receipt_from_content(&text_message(3, 4, "x")).is_none());
}

#[test]
fn content_without_thread_or_text_is_ignored() {
    let mut content = text_message(5, 6, "body");
    content.thread = None;
    assert!(from_content(&content).is_none());

    let other = Content { timestamp: 1, sender: 2, thread: Some(Thread::Group([1; 32])), body: ContentBody::Other };
    assert!(from_content(&other).is_none());

    let synced_without_body = Content {
        timestamp: 1,
        sender: 2,
        thread: Some(Thread::Group([1; 32])),
        body: ContentBody::SentSync { body: None },
    };
    assert!(from_content(&synced_without_body).is_none());
}

#[test]
fn received_message_has_no_status() {
    let (_, message) = from_content(&text_message(8, 9, "hey")).unwrap();
    assert!(message.status.is_none());
}

#[test]
fn contact_name_takes_first_match_and_skips_empty_names() {
    let contacts = vec![
        Contact { uuid: 1, name: "Ada".into() },
        Contact { uuid: 2, name: String::new() },
        Contact { uuid: 1, name: "Later".into() },
        Contact { uuid: 3, name: "Cy".into() },
    ];
    assert_eq!(contact_name(&contacts, 1), Some("Ada"));
    assert_eq!(contact_name(&contacts, 2), None);
    assert_eq!(contact_name(&contacts, 3), Some("Cy"));
    assert_eq!(contact_name(&contacts, 4), None);
    assert_eq!(contact_name(&[], 1), None);
}

#[test]
fn contact_id_uuid_and_thread_equality() {
    assert_eq!(ContactId::Aci(42).uuid(), 42);
    assert_eq!(ContactId::Pni(43).uuid(), 43);
    assert!(ContactId::Aci(1).same(&ContactId::Aci(1)));
    assert!(!ContactId::Aci(1).same(&ContactId::Pni(1)));

    let mut key = [0u8; 32];
    let group = Thread::Group(key);
    assert!(group.same(&Thread::Group(key)));
    key[31] = 1;
    assert!(!group.same(&Thread::Group(key)));
    assert!(!group.same(&Thread::Contact(ContactId::Aci(0))));
}

#[test]
fn status_precedes_follows_the_declared_order() {
    let order = [Status::Sending, Status::Failed, Status::Sent, Status::Delivered, Status::Read];
    for (i, a) in order.iter().enumerate() {
        for (j, b) in order.iter().enumerate() {
            assert_eq!(a.precedes(*b), i < j);
            assert_eq!(a.precedes(*b), a < b);
        }
    }
}

#[test]
fn thread_map_keeps_one_value_per_thread() {
    let a = Thread::Contact(ContactId::Aci(1));
    let b = Thread::Group([2; 32]);
    let mut map: ThreadMap<u32> = ThreadMap::new();
    assert!(!map.contains(&a));
    map.insert(a, 1);
    map.insert(b, 2);
    map.insert(a, 3);
    assert_eq!(map.get(&a), Some(&3));
    assert_eq!(map.get(&b), Some(&2));
    assert_eq!(map.remove(&a), Some(3));
    assert_eq!(map.get(&a), None);
    assert_eq!(map.remove(&a), None);
    assert_eq!(map.into_entries(), vec![(b, 2)]);
}

#[test]
fn message_duplicate_is_equal() {
    let m = Message { timestamp: 1, sender: 2, body: "x".into(), status: Some(Status::Sent) };
    let d = m.duplicate();
    assert_eq!(d.timestamp, 1);
    assert_eq!(d.sender, 2);
    assert_eq!(d.body, "x");
    assert_eq!(d.status, Some(Status::Sent));
}
