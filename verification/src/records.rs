//! What a websocket action turns into: the record handed to a database worker
//! and, for messages, what is forwarded to other users.
use vstd::prelude::*;
use vstd::string::*;
use vstd::utf8::*;
use crate::ids::{
    bucket_advanced, bucket_can_draw, bucket_clock, bucket_next, bucket_machine, bucket_node, fresh_draw,
    next_id,
};
use crate::json::{json_escaped, json_escaped_char, json_quote, json_string_literal};
use crate::labels::{ContentLabel, RequestStatus};
use crate::text::{
    all_digits, decimal, is_ascii_digit, lemma_decimal_digits, lemma_u64_text_round_trip, parse_u64,
    push_decimal, spec_parse_u64, trim, trim_str, TrimSet,
};

verus! {

/// A point in time: seconds since the Unix epoch and the nanoseconds within
/// that second.
#[derive(Clone, Copy, Debug, PartialEq, Eq, Structural)]
pub struct Timestamp {
    pub secs: i64,
    pub nanos: u32,
}

/// A friend request as the client sends it.
pub struct WSRequestPayload {
    pub receiver_id: u64,
    pub status: RequestStatus,
}

/// A friend request as the request worker stores it.
#[derive(Clone, Copy, Debug, PartialEq, Eq, Structural)]
pub struct WSRequestDB {
    pub sender_id: i64,
    pub receiver_id: i64,
    pub status: RequestStatus,
    pub created_at: Timestamp,
}

/// A new group as the client sends it; `initial_members` is the JSON text of
/// the member list, as received.
pub struct WSCreateGroupPayload {
    pub group_name: String,
    pub initial_members: String,
}

/// A new group as the group worker stores it.
pub struct WSCreateGroupDB {
    pub group_name: String,
    pub creator_id: i64,
    pub created_at: Timestamp,
    pub initial_members: Vec<u8>,
}

/// A group message as the client sends it; `description` is the JSON text of
/// the message body, as received.
pub struct WSGroupMessagePayload {
    pub chat_id: String,
    pub content_type: ContentLabel,
    pub description: String,
}

/// A group message as the group message worker stores it.
pub struct WSGroupMessageDB {
    pub sender_id: i64,
    pub message_id: i64,
    pub chat_id: i64,
    pub content_type: ContentLabel,
    pub description: Vec<u8>,
    pub created_at: i64,
}

/// A group message on its way to the group's members.
pub struct GroupForwardMessage {
    pub group_id: i64,
    pub sender_id: i64,
    pub message_id: i64,
    pub content_type: ContentLabel,
    pub description: Vec<u8>,
}

/// A private message as the client sends it; `description` is the JSON text
/// of the message body, as received.
pub struct WSMessagePrivatePayload {
    pub receiver_id: String,
    pub chat_id: Option<String>,
    pub content_type: ContentLabel,
    pub description: String,
}

/// A private message as the private message worker stores it.
pub struct MessagePrivateDB {
    pub sender_id: u64,
    pub receiver_id: u64,
    pub content_type: ContentLabel,
    pub description: Vec<u8>,
    pub created_at: i64,
}

/// What becomes of a private message: the notification for the receiver, if
/// connected, and the record for the worker.
pub struct PrivateDispatch {
    pub receiver_id: u64,
    pub notification: String,
    pub record: MessagePrivateDB,
}

/// An identifier given as text; text that is no `u64` counts as `0`, which
/// names no one.
pub open spec fn id_or_zero(s: Seq<char>) -> u64 {
    match spec_parse_u64(s) {
        Some(v) => v,
        None => 0,
    }
}

fn parse_id_or_zero(s: &str) -> (res: u64)
    ensures
        res == id_or_zero(s@),
{
    match parse_u64(s) {
        Some(v) => v,
        None => 0,
    }
}

/// The friend request record for a request sent by `user_id` at `now`.
pub fn request_record(payload: &WSRequestPayload, user_id: u64, now: Timestamp) -> (rec:
    WSRequestDB)
    ensures
        rec == (WSRequestDB {
            sender_id: user_id as i64,
            receiver_id: payload.receiver_id as i64,
            status: payload.status,
            created_at: now,
        }),
{
    WSRequestDB {
        sender_id: user_id as i64,
        receiver_id: payload.receiver_id as i64,
        status: payload.status,
        created_at: now,
    }
}

/// The group record for a group that `user_id` creates at `now`: the name as
/// given, the creator, and the bytes of the member list text.
pub fn group_creation_record(payload: WSCreateGroupPayload, user_id: u64, now: Timestamp) -> (rec:
    WSCreateGroupDB)
    ensures
        rec.group_name@ == payload.group_name@,
        rec.creator_id == user_id as i64,
        rec.created_at == now,
        rec.initial_members@ == encode_utf8(payload.initial_members@),
{
    let members = payload.initial_members.as_str().as_bytes_vec();
    WSCreateGroupDB {
        group_name: payload.group_name,
        creator_id: user_id as i64,
        created_at: now,
        initial_members: members,
    }
}

/// The stored record and the forwarded message of a group message, once its
/// target group and identifier are known.
pub fn build_group_message(
    payload: &WSGroupMessagePayload,
    user_id: u64,
    chat_id: u64,
    message_id: i64,
    now_secs: i64,
) -> (res: (WSGroupMessageDB, GroupForwardMessage))
    ensures
        res.0.sender_id == user_id as i64,
        res.0.message_id == message_id,
        res.0.chat_id == chat_id as i64,
        res.0.content_type == payload.content_type,
        res.0.description@ == encode_utf8(payload.description@),
        res.0.created_at == now_secs,
        res.1.group_id == chat_id as i64,
        res.1.sender_id == user_id as i64,
        res.1.message_id == message_id,
        res.1.content_type == payload.content_type,
        res.1.description@ == encode_utf8(payload.description@),
{
    let stored = payload.description.as_str().as_bytes_vec();
    let forwarded = payload.description.as_str().as_bytes_vec();
    let db = WSGroupMessageDB {
        sender_id: user_id as i64,
        message_id,
        chat_id: chat_id as i64,
        content_type: payload.content_type,
        description: stored,
        created_at: now_secs,
    };
    let fwd = GroupForwardMessage {
        group_id: chat_id as i64,
        sender_id: user_id as i64,
        message_id,
        content_type: payload.content_type,
        description: forwarded,
    };
    (db, fwd)
}

/// A group message from `user_id`: nothing when the chat id is not a
/// non-zero `u64`, and then no identifier is drawn; otherwise the bucket's
/// next identifier is drawn and both records are built around it.
pub fn group_message_records(
    payload: &WSGroupMessagePayload,
    user_id: u64,
    ids: &mut snowflake::SnowflakeIdBucket,
    now_secs: i64,
) -> (res: Option<(WSGroupMessageDB, GroupForwardMessage)>)
    ensures
        res is None <==> id_or_zero(payload.chat_id@) == 0,
        res is None ==> *final(ids) == *old(ids),
        res is Some ==> *final(ids) == bucket_advanced(*old(ids)),
        bucket_machine(*final(ids)) == bucket_machine(*old(ids)),
        bucket_node(*final(ids)) == bucket_node(*old(ids)),
        bucket_clock(*old(ids)) <= bucket_clock(*final(ids)) <= bucket_clock(*old(ids)) + 1,
        res is Some && bucket_can_draw(*old(ids), 1) ==> fresh_draw(
            *old(ids),
            *final(ids),
            bucket_next(*old(ids)),
        ),
        res matches Some(r) ==> {
            let chat_id = id_or_zero(payload.chat_id@);
            &&& r.0.message_id == bucket_next(*old(ids))
            &&& r.0.sender_id == user_id as i64
            &&& r.0.chat_id == chat_id as i64
            &&& r.0.content_type == payload.content_type
            &&& r.0.description@ == encode_utf8(payload.description@)
            &&& r.0.created_at == now_secs
            &&& r.1.group_id == chat_id as i64
            &&& r.1.sender_id == user_id as i64
            &&& r.1.message_id == r.0.message_id
            &&& r.1.content_type == payload.content_type
            &&& r.1.description@ == encode_utf8(payload.description@)
        },
{
    let chat_id = parse_id_or_zero(payload.chat_id.as_str());
    if chat_id == 0 {
        return None;
    }
    let message_id = next_id(ids);
    Some(build_group_message(payload, user_id, chat_id, message_id, now_secs))
}

/// The notification a receiver gets for a private message: compact JSON with
/// the keys in order, each string value JSON-quoted.
pub open spec fn private_notification(
    chat_id: Option<Seq<char>>,
    description: Seq<char>,
    messaged_at: Seq<char>,
    sender: u64,
) -> Seq<char> {
    let chat = match chat_id {
        Some(c) => json_string_literal(c),
        None => "null"@,
    };
    "{\"action\":\"newMessage\",\"payload\":{\"chat_id\":"@ + chat + ",\"description\":"@
        + json_string_literal(description) + ",\"messaged_at\":"@ + json_string_literal(
        messaged_at,
    ) + ",\"sender_id\":"@ + json_string_literal(decimal(sender as nat)) + "}}"@
}

pub open spec fn opt_string_view(o: Option<String>) -> Option<Seq<char>> {
    match o {
        Some(s) => Some(s@),
        None => None,
    }
}

/// A private message from `user_id` at `now_secs` (whose RFC 3339 text is
/// `now_text`): nothing when the receiver id is not a non-zero `u64`;
/// otherwise the notification for the receiver and the record for the
/// worker. The body is the message's JSON text with the double quotes at its
/// ends removed.
pub fn private_message_dispatch(
    payload: &WSMessagePrivatePayload,
    user_id: u64,
    now_text: &str,
    now_secs: i64,
) -> (res: Option<PrivateDispatch>)
    ensures
        res is None <==> id_or_zero(payload.receiver_id@) == 0,
        res matches Some(d) ==> {
            let body = trim(payload.description@, TrimSet::DoubleQuote);
            &&& d.receiver_id == id_or_zero(payload.receiver_id@)
            &&& d.notification@ == private_notification(
                opt_string_view(payload.chat_id),
                body,
                now_text@,
                user_id,
            )
            &&& d.record.sender_id == user_id
            &&& d.record.receiver_id == d.receiver_id
            &&& d.record.content_type == payload.content_type
            &&& d.record.description@ == encode_utf8(body)
            &&& d.record.created_at == now_secs
        },
{
    let receiver_id = parse_id_or_zero(payload.receiver_id.as_str());
    if receiver_id == 0 {
        return None;
    }
    let body = trim_str(payload.description.as_str(), TrimSet::DoubleQuote);
    let mut out = String::new();
    out.append("{\"action\":\"newMessage\",\"payload\":{\"chat_id\":");
    match &payload.chat_id {
        Some(c) => {
            let q = json_quote(c.as_str());
            out.append(q.as_str());
        },
        None => {
            out.append("null");
        },
    }
    out.append(",\"description\":");
    let qd = json_quote(body);
    out.append(qd.as_str());
    out.append(",\"messaged_at\":");
    let qt = json_quote(now_text);
    out.append(qt.as_str());
    out.append(",\"sender_id\":");
    let mut sender = String::new();
    push_decimal(&mut sender, user_id);
    assert(sender@ =~= decimal(user_id as nat));
    let qs = json_quote(sender.as_str());
    out.append(qs.as_str());
    out.append("}}");
    assert(out@ =~= private_notification(
        opt_string_view(payload.chat_id),
        body@,
        now_text@,
        user_id,
    ));
    let record = MessagePrivateDB {
        sender_id: user_id,
        receiver_id,
        content_type: payload.content_type,
        description: body.as_bytes_vec(),
        created_at: now_secs,
    };
    Some(PrivateDispatch { receiver_id, notification: out, record })
}


/// An id given as text is read as `u64::from_str` reads it: a text that is a
/// `u64` gives that number, whatever its size, any other text gives `0`; and
/// the decimal text of an id gives the id back.
pub proof fn lemma_ids_read_as_u64(s: Seq<char>, n: u64)
    ensures
        spec_parse_u64(s) matches Some(v) ==> id_or_zero(s) == v,
        spec_parse_u64(s) is None ==> id_or_zero(s) == 0,
        id_or_zero(decimal(n as nat)) == n,
{
    lemma_u64_text_round_trip(n);
}

/// A run of digits needs no escaping inside a JSON string.
proof fn lemma_digits_unescaped(s: Seq<char>)
    requires
        all_digits(s),
    ensures
        json_escaped(s) == s,
    decreases s.len(),
{
    if s.len() > 0 {
        let t = s.drop_last();
        assert(all_digits(t)) by {
            assert forall|i: int| 0 <= i < t.len() implies is_ascii_digit(#[trigger] t[i]) by {
                assert(t[i] == s[i]);
            }
        }
        lemma_digits_unescaped(t);
        assert(is_ascii_digit(s[s.len() - 1]));
        assert(json_escaped_char(s.last()) == seq![s.last()]);
        assert(s =~= t + seq![s.last()]);
    }
}

/// The receiver of a private message can tell who sent it: the notification
/// ends with the `sender_id` field, whose text is a string of digits that
/// reads back as the sender's id, for every `u64` id. Returned are the text
/// before the field and the digits.
pub proof fn lemma_notification_names_sender(
    chat_id: Option<Seq<char>>,
    description: Seq<char>,
    messaged_at: Seq<char>,
    sender: u64,
) -> (parts: (Seq<char>, Seq<char>))
    ensures
        private_notification(chat_id, description, messaged_at, sender) == parts.0
            + ",\"sender_id\":\""@ + parts.1 + "\"}}"@,
        all_digits(parts.1),
        spec_parse_u64(parts.1) == Some(sender),
{
    let d = decimal(sender as nat);
    lemma_decimal_digits(sender as nat);
    lemma_u64_text_round_trip(sender);
    lemma_digits_unescaped(d);
    reveal_strlit(",\"sender_id\":");
    reveal_strlit(",\"sender_id\":\"");
    reveal_strlit("\"}}");
    reveal_strlit("}}");
    let chat = match chat_id {
        Some(c) => json_string_literal(c),
        None => "null"@,
    };
    let head = "{\"action\":\"newMessage\",\"payload\":{\"chat_id\":"@ + chat
        + ",\"description\":"@ + json_string_literal(description) + ",\"messaged_at\":"@
        + json_string_literal(messaged_at);
    assert(private_notification(chat_id, description, messaged_at, sender) =~= head
        + ",\"sender_id\":\""@ + d + "\"}}"@);
    (head, d)
}

} // verus!
