use chat_core::batch::{BatchWindow, CloseRule, WindowEvent, WindowStep};
use chat_core::http::{private_history_query, ChatHistoryPayload};
use chat_core::labels::{CompressionLabel, ContentLabel, EncryptionLabel, RequestStatus};
use chat_core::records::{
    build_group_message, group_creation_record, group_message_records, private_message_dispatch,
    request_record, MessagePrivateDB, Timestamp, WSCreateGroupDB, WSCreateGroupPayload,
    WSGroupMessageDB, WSGroupMessagePayload, WSMessagePrivatePayload, WSRequestDB,
    WSRequestPayload,
};
use chat_core::rows::{
    group_message_row, group_row, group_row_with_id, preview_of, private_row,
    private_row_with_ids, request_row, request_row_with_ids,
};

fn bucket() -> snowflake::SnowflakeIdBucket {
    chat_core::ids::server_id_bucket()
}

#[test]
fn label_names_are_the_variant_names() {
    assert_eq!(ContentLabel::text.name(), "text");
    assert_eq!(ContentLabel::video.name(), "video");
    assert_eq!(ContentLabel::audio.name(), "audio");
    assert_eq!(ContentLabel::image.name(), "image");
    assert_eq!(ContentLabel::file.name(), "file");
    assert_eq!(CompressionLabel::zstd.name(), "zstd");
    assert_eq!(CompressionLabel::none.name(), "none");
    assert_eq!(EncryptionLabel::rsa.name(), "rsa");
    assert_eq!(RequestStatus::pending.name(), "pending");
    assert_eq!(RequestStatus::accepted.name(), "accepted");
    assert_eq!(RequestStatus::declined.name(), "declined");
    assert_eq!(format!("{:?}", RequestStatus::accepted).to_lowercase(), RequestStatus::accepted.name());
}

#[test]
fn request_record_carries_both_users() {
    let now = Timestamp { secs: 1_700_000_000, nanos: 5 };
    let rec = request_record(&WSRequestPayload { receiver_id: 9, status: RequestStatus::pending }, 4, now);
    assert_eq!(rec, WSRequestDB { sender_id: 4, receiver_id: 9, status: RequestStatus::pending, created_at: now });
}

#[test]
fn group_creation_record_keeps_member_text() {
    let now = Timestamp { secs: 10, nanos: 0 };
    let rec = group_creation_record(
        WSCreateGroupPayload { group_name: "team".to_string(), initial_members: "[\"1\",\"2\"]".to_string() },
        77,
        now,
    );
    assert_eq!(rec.group_name, "team");
    assert_eq!(rec.creator_id, 77);
    assert_eq!(rec.created_at, now);
    assert_eq!(rec.initial_members, b"[\"1\",\"2\"]".to_vec());
}

fn group_payload(chat: &str) -> WSGroupMessagePayload {
    WSGroupMessagePayload { chat_id: chat.to_string(), content_type: ContentLabel::image, description: "\"hey\"".to_string() }
}

#[test]
fn group_message_without_target_is_dropped() {
    let mut ids = bucket();
    assert!(group_message_records(&group_payload("0"), 3, &mut ids, 50).is_none());
    assert!(group_message_records(&group_payload("abc"), 3, &mut ids, 50).is_none());
}

#[test]
fn group_message_records_share_the_message_id() {
    let mut ids = bucket();
    let (db, fwd) = group_message_records(&group_payload("12"), 3, &mut ids, 50).unwrap();
    assert_eq!(db.chat_id, 12);
    assert_eq!(db.sender_id, 3);
    assert_eq!(db.created_at, 50);
    assert_eq!(db.content_type, ContentLabel::image);
    assert_eq!(db.description, b"\"hey\"".to_vec());
    assert_eq!(fwd.message_id, db.message_id);
    assert_eq!(fwd.group_id, 12);
    assert_eq!(fwd.sender_id, 3);
    assert_eq!(fwd.description, db.description);
}

#[test]
fn built_group_message_uses_the_given_id() {
    let (db, fwd) = build_group_message(&group_payload("12"), 3, 12, 999, 50);
    assert_eq!(db.message_id, 999);
    assert_eq!(fwd.message_id, 999);
}

fn private_payload(receiver: &str, chat: Option<&str>, description: &str) -> WSMessagePrivatePayload {
    WSMessagePrivatePayload {
        receiver_id: receiver.to_string(),
        chat_id: chat.map(|c| c.to_string()),
        content_type: ContentLabel::text,
        description: description.to_string(),
    }
}

#[test]
fn private_message_without_receiver_is_dropped() {
    assert!(private_message_dispatch(&private_payload("0", None, "\"x\""), 1, "t", 5).is_none());
    assert!(private_message_dispatch(&private_payload("bob", None, "\"x\""), 1, "t", 5).is_none());
}

#[test]
fn private_message_notification_text() {
    let d = private_message_dispatch(
        &private_payload("42", Some("c1"), "\"hi\""),
        7,
        "2024-01-02T03:04:05+00:00",
        1_704_164_645,
    )
    .unwrap();
    assert_eq!(d.receiver_id, 42);
    assert_eq!(
        d.notification,
        "{\"action\":\"newMessage\",\"payload\":{\"chat_id\":\"c1\",\"description\":\"hi\",\"messaged_at\":\"2024-01-02T03:04:05+00:00\",\"sender_id\":\"7\"}}"
    );
    assert_eq!(d.record.sender_id, 7);
    assert_eq!(d.record.receiver_id, 42);
    assert_eq!(d.record.description, b"hi".to_vec());
    assert_eq!(d.record.created_at, 1_704_164_645);
}

#[test]
fn private_message_notification_escapes_and_nulls() {
    // The body loses every quote at its ends, the escaped one included.
    let d = private_message_dispatch(&private_payload("42", None, "\"say \\\"x\\\"\""), 7, "now", 1).unwrap();
    assert_eq!(d.record.description, b"say \\\"x\\".to_vec());
    let mut inner = serde_json::Map::new();
    inner.insert("chat_id".to_string(), serde_json::Value::Null);
    inner.insert("description".to_string(), serde_json::Value::String("say \\\"x\\".to_string()));
    inner.insert("messaged_at".to_string(), serde_json::Value::String("now".to_string()));
    inner.insert("sender_id".to_string(), serde_json::Value::String("7".to_string()));
    let mut outer = serde_json::Map::new();
    outer.insert("action".to_string(), serde_json::Value::String("newMessage".to_string()));
    outer.insert("payload".to_string(), serde_json::Value::Object(inner));
    let expected = serde_json::Value::Object(outer).to_string();
    assert_eq!(d.notification, expected);
    assert!(d.notification.contains("\"chat_id\":null"));
}

#[test]
fn previews_keep_short_messages_and_cut_long_ones() {
    assert_eq!(preview_of("short"), "short");
    let thirty = "a".repeat(30);
    assert_eq!(preview_of(&thirty), thirty);
    let long = "b".repeat(31);
    assert_eq!(preview_of(&long), format!("{}...", "b".repeat(27)));
    // 11 characters of 3 bytes each: 33 bytes, fewer than 27 characters.
    let wide = "€".repeat(11);
    assert_eq!(preview_of(&wide), format!("{}...", wide));
    let mixed = "é".repeat(16);
    assert_eq!(preview_of(&mixed), format!("{}...", "é".repeat(16)));
}

fn private_rec(sender: u64, receiver: u64, description: &[u8], created_at: i64) -> MessagePrivateDB {
    MessagePrivateDB {
        sender_id: sender,
        receiver_id: receiver,
        content_type: ContentLabel::audio,
        description: description.to_vec(),
        created_at,
    }
}

#[test]
fn private_row_orders_pair_and_decodes() {
    let row = private_row_with_ids(&private_rec(3, 9, b"hello", 1_700_000_000), 100, 200);
    assert_eq!((row.message_id, row.new_chat_id), (100, 200));
    assert_eq!((row.user_a, row.user_b), (9, 3));
    assert_eq!((row.sender_id, row.receiver_id), (3, 9));
    assert_eq!(row.content_type, "audio");
    assert_eq!(row.description, "hello");
    assert_eq!(row.preview, "hello");
    assert_eq!(row.messaged_at, Some(1_700_000_000));
    let row = private_row_with_ids(&private_rec(9, 3, b"hello", 1), 1, 2);
    assert_eq!((row.user_a, row.user_b), (9, 3));
}

#[test]
fn private_row_replaces_bad_bytes_and_falls_back_to_now() {
    let row = private_row_with_ids(&private_rec(1, 2, &[0x66, 0xff, 0x6f], i64::MAX), 1, 2);
    assert_eq!(row.description, "f\u{FFFD}o");
    assert_eq!(row.messaged_at, None);
}

#[test]
fn private_row_draws_two_distinct_ids() {
    let mut ids = bucket();
    let row = private_row(&private_rec(1, 2, b"x", 5), &mut ids);
    assert_ne!(row.message_id, row.new_chat_id);
}

#[test]
fn group_message_row_copies_the_record() {
    let rec = WSGroupMessageDB {
        sender_id: 4,
        message_id: 8,
        chat_id: 15,
        content_type: ContentLabel::file,
        description: b"\"doc\"".to_vec(),
        created_at: 20,
    };
    let row = group_message_row(&rec);
    assert_eq!((row.message_id, row.chat_id, row.sender_id), (8, 15, 4));
    assert_eq!(row.content_type, "file");
    assert_eq!(row.description, "\"doc\"");
    assert_eq!(row.messaged_at, Some(20));
}

#[test]
fn request_rows_use_lower_case_status() {
    let rec = WSRequestDB { sender_id: 1, receiver_id: 2, status: RequestStatus::accepted, created_at: Timestamp { secs: 3, nanos: 4 } };
    let row = request_row_with_ids(&rec, 10, 11);
    assert_eq!((row.request_id, row.notification_id), (10, 11));
    assert_eq!(row.status, "accepted");
    let mut ids = bucket();
    let row = request_row(&rec, &mut ids);
    assert_ne!(row.request_id, row.notification_id);
    assert_eq!(row.created_at, Timestamp { secs: 3, nanos: 4 });
}

fn group_rec(members: &str) -> WSCreateGroupDB {
    WSCreateGroupDB {
        group_name: "g".to_string(),
        creator_id: 5,
        created_at: Timestamp { secs: 1, nanos: 0 },
        initial_members: members.as_bytes().to_vec(),
    }
}

#[test]
fn group_rows_keep_valid_member_lists_only() {
    let row = group_row_with_id(group_rec("[\"2\",\"3\"]"), 90);
    assert_eq!(row.group_id, 90);
    assert_eq!(row.members_json, b"[\"2\",\"3\"]".to_vec());
    let row = group_row_with_id(group_rec("[ 1e2, {\"b\": 1, \"a\": 2} ]"), 92);
    assert_eq!(row.members_json, b"[100.0,{\"a\":2,\"b\":1}]".to_vec());
    let row = group_row_with_id(group_rec("[\"2\","), 91);
    assert_eq!(row.members_json, b"[]".to_vec());
    let mut ids = bucket();
    let row = group_row(group_rec("nope"), &mut ids);
    assert_eq!(row.members_json, b"[]".to_vec());
    assert_eq!(row.creator_id, 5);
}

#[test]
fn stored_pair_is_the_pair_both_users_read() {
    let row = private_row_with_ids(&private_rec(3, 9, b"x", 1), 1, 2);
    for (me, other) in [("3", "9"), ("9", "3")] {
        let p = ChatHistoryPayload {
            other_id: Some(other.to_string()),
            group_id: None,
            last_msg_time: Some(Timestamp { secs: 1, nanos: 0 }),
        };
        let q = private_history_query(Some(me), &p).unwrap();
        assert_eq!((q.user_a, q.user_b), (row.user_a, row.user_b));
    }
}

#[test]
fn drawn_ids_are_the_buckets_next_ids() {
    let mut ids = bucket();
    let mut twin = ids.clone();
    let row = private_row(&private_rec(1, 2, b"x", 5), &mut ids);
    assert_eq!(row.message_id, twin.get_id());
    assert_eq!(row.new_chat_id, twin.get_id());
    let rec = WSRequestDB { sender_id: 1, receiver_id: 2, status: RequestStatus::pending, created_at: Timestamp { secs: 3, nanos: 4 } };
    let r = request_row(&rec, &mut ids);
    assert_eq!(r.request_id, twin.get_id());
    assert_eq!(r.notification_id, twin.get_id());
    let g = group_row(group_rec("[]"), &mut ids);
    assert_eq!(g.group_id, twin.get_id());
}

#[test]
fn refused_group_message_draws_no_id() {
    let mut ids = bucket();
    let mut twin = ids.clone();
    assert!(group_message_records(&group_payload("0"), 3, &mut ids, 50).is_none());
    let (db, _) = group_message_records(&group_payload("12"), 3, &mut ids, 50).unwrap();
    assert_eq!(db.message_id, twin.get_id());
}

#[test]
fn chrono_range_bounds_the_stored_time() {
    let at = |secs: i64| private_row_with_ids(&private_rec(1, 2, b"x", secs), 1, 2).messaged_at;
    assert_eq!(at(8210266876799), Some(8210266876799));
    assert_eq!(at(8210266876800), None);
    assert_eq!(at(-8334601228800), Some(-8334601228800));
    assert_eq!(at(-8334601228801), None);
    assert_eq!(at(i64::MIN), None);
}

#[test]
fn notification_escapes_control_characters() {
    let d = private_message_dispatch(&private_payload("42", Some("a\u{1}\u{7f}\u{8}\t/é"), "x"), 7, "n", 1).unwrap();
    assert!(d.notification.contains("\"chat_id\":\"a\\u0001\u{7f}\\b\\t/é\""));
}

#[test]
fn a_window_of_draws_hands_out_distinct_ids() {
    let mut ids = bucket();
    let mut seen = std::collections::HashSet::new();
    for _ in 0..5000 {
        let row = private_row(&private_rec(1, 2, b"x", 5), &mut ids);
        assert!(seen.insert(row.message_id));
        assert!(seen.insert(row.new_chat_id));
        let g = group_row(group_rec("[]"), &mut ids);
        assert!(seen.insert(g.group_id));
    }
}

#[test]
fn a_creation_window_gives_each_group_and_request_a_new_id() {
    let mut ids = bucket();
    let mut groups = BatchWindow::new();
    let mut requests = BatchWindow::new();
    let req = WSRequestDB {
        sender_id: 1,
        receiver_id: 2,
        status: RequestStatus::pending,
        created_at: Timestamp { secs: 3, nanos: 0 },
    };
    for _ in 0..4100 {
        let g = group_row(group_rec("[1,2]"), &mut ids);
        assert_eq!(groups.step(WindowEvent::Received(g), CloseRule::Stop), WindowStep::Continue);
        let r = request_row(&req, &mut ids);
        assert_eq!(requests.step(WindowEvent::Received(r), CloseRule::Stop), WindowStep::Continue);
    }
    let groups = groups.finish().unwrap();
    let requests = requests.finish().unwrap();
    assert_eq!(groups.len(), 4100);
    let mut seen = std::collections::HashSet::new();
    for g in &groups {
        assert!(seen.insert(g.group_id));
        assert_eq!(g.members_json, b"[1,2]".to_vec());
    }
    for r in &requests {
        assert!(seen.insert(r.request_id));
        assert!(seen.insert(r.notification_id));
    }
    assert_eq!(seen.len(), 4100 * 3);
}

#[test]
fn server_ids_carry_machine_one_and_node_one() {
    let mut ids = bucket();
    for _ in 0..5000 {
        let g = group_row(group_rec("[]"), &mut ids);
        assert_eq!((g.group_id >> 17) & 0x1f, 1);
        assert_eq!((g.group_id >> 12) & 0x1f, 1);
    }
}
