use chat_core::http::{
    group_history_query, membership_gate, private_history_query, stories_followup,
    timed_request, user_id_from_header, user_id_from_raw_header, ChatHistoryPayload,
    GroupHistoryQuery, HttpError, Lookup, PrivateHistoryQuery,
};
use chat_core::records::Timestamp;
use chat_core::text::{i64_to_text, parse_i64, parse_u64, str_eq, trim_str, u64_to_text, TrimSet};

#[test]
fn parse_u64_accepts_plain_and_plus_signed_digits() {
    assert_eq!(parse_u64("123"), Some(123));
    assert_eq!(parse_u64("+5"), Some(5));
    assert_eq!(parse_u64("007"), Some(7));
    assert_eq!(parse_u64("18446744073709551615"), Some(u64::MAX));
}

#[test]
fn parse_u64_refuses_what_from_str_refuses() {
    assert_eq!(parse_u64(""), None);
    assert_eq!(parse_u64("+"), None);
    assert_eq!(parse_u64("-5"), None);
    assert_eq!(parse_u64("12a"), None);
    assert_eq!(parse_u64(" 1"), None);
    assert_eq!(parse_u64("18446744073709551616"), None);
    for s in ["", "+", "-5", "12a", " 1", "18446744073709551616", "99999999999999999999999"] {
        assert_eq!(parse_u64(s), s.parse::<u64>().ok());
    }
}

#[test]
fn parse_i64_agrees_with_from_str() {
    for s in [
        "0", "-0", "+0", "42", "-42", "+42", "-", "+", "", "--1", "-+1", "1-",
        "9223372036854775807", "9223372036854775808", "-9223372036854775808",
        "-9223372036854775809", "１２",
    ] {
        assert_eq!(parse_i64(s), s.parse::<i64>().ok(), "input {:?}", s);
    }
}

#[test]
fn decimal_text_matches_to_string() {
    for n in [0u64, 9, 10, 12345, u64::MAX] {
        assert_eq!(u64_to_text(n), n.to_string());
    }
    for v in [0i64, -1, 42, -42, i64::MIN, i64::MAX] {
        assert_eq!(i64_to_text(v), v.to_string());
    }
}

#[test]
fn decimal_text_reads_back() {
    for v in [0i64, 7, 1234567890123, i64::MAX] {
        assert_eq!(parse_u64(&i64_to_text(v)), Some(v as u64));
        assert_eq!(parse_i64(&i64_to_text(v)), Some(v));
    }
}

#[test]
fn trimming_matches_std() {
    let cases = ["  \"42\" ", "\u{3000}x\t", "\"\"\"", "", "\"a\"b\"", "\n\n"];
    for s in cases {
        assert_eq!(trim_str(s, TrimSet::Whitespace), s.trim());
        assert_eq!(trim_str(s, TrimSet::DoubleQuote), s.trim_matches('"'));
    }
}

#[test]
fn str_eq_compares_characters() {
    assert!(str_eq("abc", "abc"));
    assert!(!str_eq("abc", "abd"));
    assert!(!str_eq("abc", "ab"));
}

#[test]
fn header_user_id_is_trimmed_then_unquoted() {
    assert_eq!(user_id_from_header(Some(" \"17\" ")), Ok(17));
    assert_eq!(user_id_from_header(Some("-3")), Ok(-3));
    assert_eq!(user_id_from_header(Some("\" 17\"")), Err(HttpError::Unauthorized));
    assert_eq!(user_id_from_header(Some("abc")), Err(HttpError::Unauthorized));
    assert_eq!(user_id_from_header(None), Err(HttpError::Unauthorized));
}

#[test]
fn raw_header_is_not_trimmed() {
    assert_eq!(user_id_from_raw_header(Some("17")), Ok(17));
    assert_eq!(user_id_from_raw_header(Some(" 17")), Err(HttpError::Unauthorized));
    assert_eq!(user_id_from_raw_header(Some("\"17\"")), Err(HttpError::Unauthorized));
    assert_eq!(user_id_from_raw_header(None), Err(HttpError::Unauthorized));
}

fn t(secs: i64) -> Timestamp {
    Timestamp { secs, nanos: 0 }
}

#[test]
fn timed_request_needs_user_then_time() {
    assert_eq!(timed_request(Some("5"), Some(t(9))), Ok((5, t(9))));
    assert_eq!(timed_request(Some("5"), None), Err(HttpError::BadRequest));
    assert_eq!(timed_request(None, None), Err(HttpError::Unauthorized));
    assert_eq!(timed_request(Some("x"), Some(t(9))), Err(HttpError::Unauthorized));
}

#[test]
fn private_history_orders_the_pair() {
    let p = ChatHistoryPayload { other_id: Some("3".to_string()), group_id: None, last_msg_time: Some(t(100)) };
    assert_eq!(
        private_history_query(Some("8"), &p),
        Ok(PrivateHistoryQuery { user_a: 8, user_b: 3, before: t(100), viewer: 8 })
    );
    assert_eq!(
        private_history_query(Some("2"), &p),
        Ok(PrivateHistoryQuery { user_a: 3, user_b: 2, before: t(100), viewer: 2 })
    );
}

#[test]
fn private_history_refusals() {
    let missing_time = ChatHistoryPayload { other_id: Some("3".to_string()), group_id: None, last_msg_time: None };
    assert_eq!(private_history_query(Some("8"), &missing_time), Err(HttpError::BadRequest));
    let bad_id = ChatHistoryPayload { other_id: Some("x".to_string()), group_id: None, last_msg_time: Some(t(1)) };
    assert_eq!(private_history_query(Some("8"), &bad_id), Err(HttpError::BadRequest));
    assert_eq!(private_history_query(None, &bad_id), Err(HttpError::Unauthorized));
}

#[test]
fn group_history_validation() {
    let p = ChatHistoryPayload { other_id: None, group_id: Some("44".to_string()), last_msg_time: Some(t(5)) };
    assert_eq!(group_history_query(Some("8"), &p), Ok(GroupHistoryQuery { viewer: 8, group_id: 44, before: t(5) }));
    assert_eq!(group_history_query(Some(" 8"), &p), Err(HttpError::Unauthorized));
    let no_group = ChatHistoryPayload { other_id: Some("1".to_string()), group_id: None, last_msg_time: Some(t(5)) };
    assert_eq!(group_history_query(Some("8"), &no_group), Err(HttpError::BadRequest));
}

#[test]
fn membership_gate_maps_lookups() {
    assert_eq!(membership_gate(Lookup::Found), Ok(()));
    assert_eq!(membership_gate(Lookup::Missing), Err(HttpError::Forbidden));
    assert_eq!(membership_gate(Lookup::Failed), Err(HttpError::InternalServerError));
}

#[test]
fn story_followup_fills_the_page() {
    assert_eq!(stories_followup(0), Some(20));
    assert_eq!(stories_followup(5), Some(15));
    assert_eq!(stories_followup(19), Some(1));
    assert_eq!(stories_followup(20), None);
    assert_eq!(stories_followup(25), None);
}

