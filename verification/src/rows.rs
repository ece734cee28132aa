//! The rows that the database workers write, one per received record.
use vstd::prelude::*;
use vstd::string::*;
use vstd::utf8::*;
use crate::ids::{
    bucket_advanced, bucket_can_draw, bucket_clock, bucket_issued, bucket_next, bucket_machine, bucket_node,
    drifts, fresh_draw, lemma_window_paired_draws, lemma_window_single_draws, next_id,
};
use crate::json::{json_normalized, normalize_json_document};
use crate::http::conversation_pair;
use crate::labels::{content_label_name, request_status_name};
use crate::records::{
    MessagePrivateDB, Timestamp, WSCreateGroupDB, WSGroupMessageDB, WSRequestDB,
};

verus! {

/// The text that `String::from_utf8_lossy` makes of `bytes`.
pub uninterp spec fn utf8_lossy(bytes: Seq<u8>) -> Seq<char>;

/// The first second chrono can represent: the start of its earliest date.
pub const CHRONO_MIN_SECS: i64 = -8334601228800;

/// The last second chrono can represent: the end of its latest date.
pub const CHRONO_MAX_SECS: i64 = 8210266876799;

/// Whether chrono can represent that many seconds since the epoch.
pub open spec fn chrono_timestamp_in_range(secs: i64) -> bool {
    CHRONO_MIN_SECS <= secs && secs <= CHRONO_MAX_SECS
}

/// Calls `String::from_utf8_lossy`: the text of `bytes`, with each invalid
/// sequence replaced by U+FFFD (named by `utf8_lossy`); valid UTF-8 is
/// decoded as it is.
#[verifier::external_body]
fn decode_lossy(bytes: &[u8]) -> (res: String)
    ensures
        res@ == utf8_lossy(bytes@),
        valid_utf8(bytes@) ==> res@ == decode_utf8(bytes@),
{
    String::from_utf8_lossy(bytes).into_owned()
}

/// Calls `chrono::DateTime::from_timestamp(secs, 0)` and reports whether it
/// gave a time: exactly for the seconds from the first second of chrono's
/// earliest date to the last second of its latest date
/// (`DateTime::<Utc>::MIN_UTC` and `MAX_UTC`).
#[verifier::external_body]
fn timestamp_in_range(secs: i64) -> (res: bool)
    ensures
        res == chrono_timestamp_in_range(secs),
{
    chrono::DateTime::from_timestamp(secs, 0).is_some()
}

/// When a message counts as sent: its own second when chrono can represent
/// it, otherwise (`None`) the moment the row is written.
pub open spec fn stored_time(created_at: i64) -> Option<i64> {
    if chrono_timestamp_in_range(created_at) {
        Some(created_at)
    } else {
        None
    }
}

fn stored_time_of(created_at: i64) -> (res: Option<i64>)
    ensures
        res == stored_time(created_at),
{
    if timestamp_in_range(created_at) {
        Some(created_at)
    } else {
        None
    }
}

/// The two users of a private conversation as stored: larger id first,
/// compared as the unsigned ids they arrive as.
pub open spec fn stored_pair(sender: u64, receiver: u64) -> (i64, i64) {
    if sender > receiver {
        (sender as i64, receiver as i64)
    } else {
        (receiver as i64, sender as i64)
    }
}

/// The conversation preview of a message: the message itself when its UTF-8
/// form has at most 30 bytes, otherwise its first 27 characters and `...`.
pub open spec fn message_preview(d: Seq<char>) -> Seq<char> {
    if encode_utf8(d).len() > 30 {
        d.take(if d.len() < 27 {
            d.len() as int
        } else {
            27
        }) + "..."@
    } else {
        d
    }
}

/// One row of a private message batch.
pub struct PrivateMessageRow {
    pub message_id: i64,
    pub new_chat_id: i64,
    pub sender_id: i64,
    pub receiver_id: i64,
    pub user_a: i64,
    pub user_b: i64,
    pub content_type: String,
    pub description: String,
    pub preview: String,
    pub messaged_at: Option<i64>,
}

/// One row of a group message batch.
pub struct GroupMessageRow {
    pub message_id: i64,
    pub chat_id: i64,
    pub sender_id: i64,
    pub content_type: String,
    pub description: String,
    pub messaged_at: Option<i64>,
}

/// One row of a friend request batch, with the id of the notification it
/// raises.
pub struct RequestRow {
    pub request_id: i64,
    pub notification_id: i64,
    pub sender_id: i64,
    pub receiver_id: i64,
    pub status: String,
    pub created_at: Timestamp,
}

/// One row of a group creation batch; `members_json` is the JSON text of the
/// initial member list.
pub struct GroupRow {
    pub group_id: i64,
    pub group_name: String,
    pub creator_id: i64,
    pub created_at: Timestamp,
    pub members_json: Vec<u8>,
}

/// The preview of a message (see `message_preview`).
pub fn preview_of(d: &str) -> (res: String)
    ensures
        res@ == message_preview(d@),
{
    if d.as_bytes().len() > 30 {
        let n = d.unicode_len();
        let k: usize = if n < 27 {
            n
        } else {
            27
        };
        let mut out = d.substring_char(0, k).to_owned();
        out.append("...");
        assert(out@ =~= message_preview(d@));
        out
    } else {
        d.to_owned()
    }
}

/// The private message row for `rec`, given its message id and the id its
/// conversation gets if it is new.
pub fn private_row_with_ids(rec: &MessagePrivateDB, message_id: i64, new_chat_id: i64) -> (row:
    PrivateMessageRow)
    ensures
        row.message_id == message_id,
        row.new_chat_id == new_chat_id,
        row.sender_id == rec.sender_id as i64,
        row.receiver_id == rec.receiver_id as i64,
        (row.user_a, row.user_b) == stored_pair(rec.sender_id, rec.receiver_id),
        row.content_type@ == content_label_name(rec.content_type),
        row.description@ == utf8_lossy(rec.description@),
        valid_utf8(rec.description@) ==> row.description@ == decode_utf8(rec.description@),
        row.preview@ == message_preview(utf8_lossy(rec.description@)),
        row.messaged_at == stored_time(rec.created_at),
{
    let (user_a, user_b) = if rec.sender_id > rec.receiver_id {
        (rec.sender_id as i64, rec.receiver_id as i64)
    } else {
        (rec.receiver_id as i64, rec.sender_id as i64)
    };
    let description = decode_lossy(rec.description.as_slice());
    let preview = preview_of(description.as_str());
    PrivateMessageRow {
        message_id,
        new_chat_id,
        sender_id: rec.sender_id as i64,
        receiver_id: rec.receiver_id as i64,
        user_a,
        user_b,
        content_type: rec.content_type.name().to_owned(),
        description,
        preview,
        messaged_at: stored_time_of(rec.created_at),
    }
}

/// The private message row for `rec`: draws the message id, then the id of
/// a conversation it may open, and builds the row around them.
pub fn private_row(rec: &MessagePrivateDB, ids: &mut snowflake::SnowflakeIdBucket) -> (row:
    PrivateMessageRow)
    ensures
        row.message_id == bucket_next(*old(ids)),
        row.new_chat_id == bucket_next(bucket_advanced(*old(ids))),
        row.new_chat_id != row.message_id,
        *final(ids) == bucket_advanced(bucket_advanced(*old(ids))),
        bucket_machine(*final(ids)) == bucket_machine(*old(ids)),
        bucket_node(*final(ids)) == bucket_node(*old(ids)),
        bucket_clock(*old(ids)) <= bucket_clock(*final(ids)) <= bucket_clock(*old(ids)) + 2,
        bucket_can_draw(*old(ids), 2) ==> fresh_draw(*old(ids), bucket_advanced(*old(ids)), row.message_id),
        bucket_can_draw(*old(ids), 2) ==> fresh_draw(bucket_advanced(*old(ids)), *final(ids), row.new_chat_id),
        private_ids_drawn(*old(ids), *final(ids), row),
        row.sender_id == rec.sender_id as i64,
        row.receiver_id == rec.receiver_id as i64,
        (row.user_a, row.user_b) == stored_pair(rec.sender_id, rec.receiver_id),
        row.content_type@ == content_label_name(rec.content_type),
        row.description@ == utf8_lossy(rec.description@),
        valid_utf8(rec.description@) ==> row.description@ == decode_utf8(rec.description@),
        row.preview@ == message_preview(utf8_lossy(rec.description@)),
        row.messaged_at == stored_time(rec.created_at),
{
    let message_id = next_id(ids);
    let new_chat_id = next_id(ids);
    private_row_with_ids(rec, message_id, new_chat_id)
}

/// The group message row for `rec`.
pub fn group_message_row(rec: &WSGroupMessageDB) -> (row: GroupMessageRow)
    ensures
        row.message_id == rec.message_id,
        row.chat_id == rec.chat_id,
        row.sender_id == rec.sender_id,
        row.content_type@ == content_label_name(rec.content_type),
        row.description@ == utf8_lossy(rec.description@),
        valid_utf8(rec.description@) ==> row.description@ == decode_utf8(rec.description@),
        row.messaged_at == stored_time(rec.created_at),
{
    GroupMessageRow {
        message_id: rec.message_id,
        chat_id: rec.chat_id,
        sender_id: rec.sender_id,
        content_type: rec.content_type.name().to_owned(),
        description: decode_lossy(rec.description.as_slice()),
        messaged_at: stored_time_of(rec.created_at),
    }
}

/// The friend request row for `rec`, given its request and notification ids.
pub fn request_row_with_ids(rec: &WSRequestDB, request_id: i64, notification_id: i64) -> (row:
    RequestRow)
    ensures
        row.request_id == request_id,
        row.notification_id == notification_id,
        row.sender_id == rec.sender_id,
        row.receiver_id == rec.receiver_id,
        row.status@ == request_status_name(rec.status),
        row.created_at == rec.created_at,
{
    RequestRow {
        request_id,
        notification_id,
        sender_id: rec.sender_id,
        receiver_id: rec.receiver_id,
        status: rec.status.name().to_owned(),
        created_at: rec.created_at,
    }
}

/// The friend request row for `rec`: draws the request id, then the
/// notification id.
pub fn request_row(rec: &WSRequestDB, ids: &mut snowflake::SnowflakeIdBucket) -> (row: RequestRow)
    ensures
        row.request_id == bucket_next(*old(ids)),
        row.notification_id == bucket_next(bucket_advanced(*old(ids))),
        row.notification_id != row.request_id,
        *final(ids) == bucket_advanced(bucket_advanced(*old(ids))),
        bucket_machine(*final(ids)) == bucket_machine(*old(ids)),
        bucket_node(*final(ids)) == bucket_node(*old(ids)),
        bucket_clock(*old(ids)) <= bucket_clock(*final(ids)) <= bucket_clock(*old(ids)) + 2,
        bucket_can_draw(*old(ids), 2) ==> fresh_draw(*old(ids), bucket_advanced(*old(ids)), row.request_id),
        bucket_can_draw(*old(ids), 2) ==> fresh_draw(bucket_advanced(*old(ids)), *final(ids), row.notification_id),
        request_ids_drawn(*old(ids), *final(ids), row),
        row.sender_id == rec.sender_id,
        row.receiver_id == rec.receiver_id,
        row.status@ == request_status_name(rec.status),
        row.created_at == rec.created_at,
{
    let request_id = next_id(ids);
    let notification_id = next_id(ids);
    request_row_with_ids(rec, request_id, notification_id)
}

/// The member list that a new group is stored with: the JSON document as
/// serde_json writes it back after reading it, or the empty list `[]` when
/// the bytes sent are no JSON document.
pub open spec fn stored_members(sent: Seq<u8>) -> Seq<u8> {
    match json_normalized(sent) {
        Some(doc) => doc,
        None => encode_utf8("[]"@),
    }
}

/// The group row for `rec`, given the group's id.
pub fn group_row_with_id(rec: WSCreateGroupDB, group_id: i64) -> (row: GroupRow)
    ensures
        row.group_id == group_id,
        row.group_name@ == rec.group_name@,
        row.creator_id == rec.creator_id,
        row.created_at == rec.created_at,
        row.members_json@ == stored_members(rec.initial_members@),
{
    let members_json = match normalize_json_document(rec.initial_members.as_slice()) {
        Some(doc) => doc,
        None => "[]".as_bytes_vec(),
    };
    GroupRow {
        group_id,
        group_name: rec.group_name,
        creator_id: rec.creator_id,
        created_at: rec.created_at,
        members_json,
    }
}

/// The group row for `rec`: draws the group's id first.
pub fn group_row(rec: WSCreateGroupDB, ids: &mut snowflake::SnowflakeIdBucket) -> (row: GroupRow)
    ensures
        row.group_id == bucket_next(*old(ids)),
        *final(ids) == bucket_advanced(*old(ids)),
        bucket_machine(*final(ids)) == bucket_machine(*old(ids)),
        bucket_node(*final(ids)) == bucket_node(*old(ids)),
        bucket_clock(*old(ids)) <= bucket_clock(*final(ids)) <= bucket_clock(*old(ids)) + 1,
        bucket_can_draw(*old(ids), 1) ==> fresh_draw(*old(ids), *final(ids), row.group_id),
        group_id_drawn(*old(ids), *final(ids), row),
        row.group_name@ == rec.group_name@,
        row.creator_id == rec.creator_id,
        row.created_at == rec.created_at,
        row.members_json@ == stored_members(rec.initial_members@),
{
    let group_id = next_id(ids);
    group_row_with_id(rec, group_id)
}

/// What `group_row` says of the group id it drew and of the bucket, taken
/// from `before` to `after`.
pub open spec fn group_id_drawn(
    before: snowflake::SnowflakeIdBucket,
    after: snowflake::SnowflakeIdBucket,
    row: GroupRow,
) -> bool {
    &&& row.group_id == bucket_next(before)
    &&& after == bucket_advanced(before)
    &&& drifts(before, after, 1)
    &&& bucket_can_draw(before, 1) ==> fresh_draw(before, after, row.group_id)
}

/// What `private_row` says of the two ids it drew and of the bucket.
pub open spec fn private_ids_drawn(
    before: snowflake::SnowflakeIdBucket,
    after: snowflake::SnowflakeIdBucket,
    row: PrivateMessageRow,
) -> bool {
    &&& row.message_id == bucket_next(before)
    &&& row.new_chat_id == bucket_next(bucket_advanced(before))
    &&& after == bucket_advanced(bucket_advanced(before))
    &&& drifts(before, after, 2)
    &&& bucket_can_draw(before, 2) ==> fresh_draw(before, bucket_advanced(before), row.message_id)
    &&& bucket_can_draw(before, 2) ==> fresh_draw(bucket_advanced(before), after, row.new_chat_id)
}

/// What `request_row` says of the two ids it drew and of the bucket.
pub open spec fn request_ids_drawn(
    before: snowflake::SnowflakeIdBucket,
    after: snowflake::SnowflakeIdBucket,
    row: RequestRow,
) -> bool {
    &&& row.request_id == bucket_next(before)
    &&& row.notification_id == bucket_next(bucket_advanced(before))
    &&& after == bucket_advanced(bucket_advanced(before))
    &&& drifts(before, after, 2)
    &&& bucket_can_draw(before, 2) ==> fresh_draw(before, bucket_advanced(before), row.request_id)
    &&& bucket_can_draw(before, 2) ==> fresh_draw(
        bucket_advanced(before),
        after,
        row.notification_id,
    )
}

/// The groups of one creation window get new ids: when `group_row` built
/// the rows one after another from one bucket (`buckets[k]` before the
/// `k`-th row) and that bucket could draw as many ids as there are rows,
/// no two rows share a group id, none of the ids was used before the
/// window, and all count as used after it.
pub proof fn lemma_group_window_ids_fresh(
    buckets: Seq<snowflake::SnowflakeIdBucket>,
    rows: Seq<GroupRow>,
)
    requires
        buckets.len() == rows.len() + 1,
        bucket_can_draw(buckets[0], rows.len() as int),
        forall|k: int|
            0 <= k < rows.len() ==> #[trigger] group_id_drawn(buckets[k], buckets[k + 1], rows[k]),
    ensures
        forall|i: int, j: int| 0 <= i < j < rows.len() ==> rows[i].group_id != rows[j].group_id,
        forall|i: int|
            0 <= i < rows.len() ==> !bucket_issued(buckets[0]).contains(#[trigger] rows[i].group_id),
        forall|i: int|
            0 <= i < rows.len() ==> bucket_issued(buckets[rows.len() as int]).contains(
                #[trigger] rows[i].group_id,
            ),
{
    let ids = Seq::new(rows.len(), |k: int| rows[k].group_id);
    assert forall|k: int| 0 <= k < ids.len() implies #[trigger] drifts(
        buckets[k],
        buckets[k + 1],
        1,
    ) by {
        assert(group_id_drawn(buckets[k], buckets[k + 1], rows[k]));
    }
    assert forall|k: int| 0 <= k < ids.len() && bucket_can_draw(buckets[k], 1) implies fresh_draw(
        #[trigger] buckets[k],
        buckets[k + 1],
        ids[k],
    ) by {
        assert(group_id_drawn(buckets[k], buckets[k + 1], rows[k]));
    }
    lemma_window_single_draws(buckets, ids);
    assert forall|i: int, j: int| 0 <= i < j < rows.len() implies rows[i].group_id
        != rows[j].group_id by {
        assert(ids[i] != ids[j]);
    }
    assert forall|i: int| 0 <= i < rows.len() implies !bucket_issued(buckets[0]).contains(
        #[trigger] rows[i].group_id,
    ) && bucket_issued(buckets[rows.len() as int]).contains(rows[i].group_id) by {
        assert(ids[i] == rows[i].group_id);
    }
}

/// The private messages of one window get new ids: when `private_row` built
/// the rows one after another from one bucket and that bucket could draw
/// two ids per row, the message ids and the ids for new conversations are
/// all different from one another, none was used before the window, and
/// all count as used after it.
pub proof fn lemma_private_window_ids_fresh(
    buckets: Seq<snowflake::SnowflakeIdBucket>,
    rows: Seq<PrivateMessageRow>,
)
    requires
        buckets.len() == rows.len() + 1,
        bucket_can_draw(buckets[0], 2 * rows.len() as int),
        forall|k: int|
            0 <= k < rows.len() ==> #[trigger] private_ids_drawn(
                buckets[k],
                buckets[k + 1],
                rows[k],
            ),
    ensures
        forall|i: int, j: int|
            0 <= i < j < rows.len() ==> rows[i].message_id != rows[j].message_id
                && rows[i].new_chat_id != rows[j].new_chat_id,
        forall|i: int, j: int|
            0 <= i < rows.len() && 0 <= j < rows.len() ==> rows[i].message_id
                != rows[j].new_chat_id,
        forall|i: int|
            0 <= i < rows.len() ==> !bucket_issued(buckets[0]).contains(
                #[trigger] rows[i].message_id,
            ) && !bucket_issued(buckets[0]).contains(rows[i].new_chat_id),
        forall|i: int|
            0 <= i < rows.len() ==> bucket_issued(buckets[rows.len() as int]).contains(
                #[trigger] rows[i].message_id,
            ) && bucket_issued(buckets[rows.len() as int]).contains(rows[i].new_chat_id),
{
    let middles = Seq::new(rows.len(), |k: int| bucket_advanced(buckets[k]));
    let firsts = Seq::new(rows.len(), |k: int| rows[k].message_id);
    let seconds = Seq::new(rows.len(), |k: int| rows[k].new_chat_id);
    assert forall|k: int| 0 <= k < rows.len() implies #[trigger] drifts(
        buckets[k],
        buckets[k + 1],
        2,
    ) by {
        assert(private_ids_drawn(buckets[k], buckets[k + 1], rows[k]));
    }
    assert forall|k: int| 0 <= k < rows.len() && bucket_can_draw(#[trigger] buckets[k], 2) implies {
        &&& fresh_draw(buckets[k], middles[k], firsts[k])
        &&& fresh_draw(middles[k], buckets[k + 1], seconds[k])
    } by {
        assert(private_ids_drawn(buckets[k], buckets[k + 1], rows[k]));
    }
    lemma_window_paired_draws(buckets, middles, firsts, seconds);
    assert forall|i: int, j: int| 0 <= i < j < rows.len() implies rows[i].message_id
        != rows[j].message_id && rows[i].new_chat_id != rows[j].new_chat_id by {
        assert(firsts[i] != firsts[j]);
        assert(seconds[i] != seconds[j]);
    }
    assert forall|i: int, j: int| 0 <= i < rows.len() && 0 <= j < rows.len() implies rows[i].message_id
        != rows[j].new_chat_id by {
        assert(firsts[i] != seconds[j]);
    }
    assert forall|i: int| 0 <= i < rows.len() implies !bucket_issued(buckets[0]).contains(
        #[trigger] rows[i].message_id,
    ) && !bucket_issued(buckets[0]).contains(rows[i].new_chat_id) && bucket_issued(
        buckets[rows.len() as int],
    ).contains(rows[i].message_id) && bucket_issued(buckets[rows.len() as int]).contains(
        rows[i].new_chat_id,
    ) by {
        assert(firsts[i] == rows[i].message_id);
        assert(seconds[i] == rows[i].new_chat_id);
    }
}

/// The friend requests of one window get new ids: when `request_row` built
/// the rows one after another from one bucket and that bucket could draw
/// two ids per row, the request ids and the notification ids are all
/// different from one another, none was used before the window, and all
/// count as used after it.
pub proof fn lemma_request_window_ids_fresh(
    buckets: Seq<snowflake::SnowflakeIdBucket>,
    rows: Seq<RequestRow>,
)
    requires
        buckets.len() == rows.len() + 1,
        bucket_can_draw(buckets[0], 2 * rows.len() as int),
        forall|k: int|
            0 <= k < rows.len() ==> #[trigger] request_ids_drawn(
                buckets[k],
                buckets[k + 1],
                rows[k],
            ),
    ensures
        forall|i: int, j: int|
            0 <= i < j < rows.len() ==> rows[i].request_id != rows[j].request_id
                && rows[i].notification_id != rows[j].notification_id,
        forall|i: int, j: int|
            0 <= i < rows.len() && 0 <= j < rows.len() ==> rows[i].request_id
                != rows[j].notification_id,
        forall|i: int|
            0 <= i < rows.len() ==> !bucket_issued(buckets[0]).contains(
                #[trigger] rows[i].request_id,
            ) && !bucket_issued(buckets[0]).contains(rows[i].notification_id),
        forall|i: int|
            0 <= i < rows.len() ==> bucket_issued(buckets[rows.len() as int]).contains(
                #[trigger] rows[i].request_id,
            ) && bucket_issued(buckets[rows.len() as int]).contains(rows[i].notification_id),
{
    let middles = Seq::new(rows.len(), |k: int| bucket_advanced(buckets[k]));
    let firsts = Seq::new(rows.len(), |k: int| rows[k].request_id);
    let seconds = Seq::new(rows.len(), |k: int| rows[k].notification_id);
    assert forall|k: int| 0 <= k < rows.len() implies #[trigger] drifts(
        buckets[k],
        buckets[k + 1],
        2,
    ) by {
        assert(request_ids_drawn(buckets[k], buckets[k + 1], rows[k]));
    }
    assert forall|k: int| 0 <= k < rows.len() && bucket_can_draw(#[trigger] buckets[k], 2) implies {
        &&& fresh_draw(buckets[k], middles[k], firsts[k])
        &&& fresh_draw(middles[k], buckets[k + 1], seconds[k])
    } by {
        assert(request_ids_drawn(buckets[k], buckets[k + 1], rows[k]));
    }
    lemma_window_paired_draws(buckets, middles, firsts, seconds);
    assert forall|i: int, j: int| 0 <= i < j < rows.len() implies rows[i].request_id
        != rows[j].request_id && rows[i].notification_id != rows[j].notification_id by {
        assert(firsts[i] != firsts[j]);
        assert(seconds[i] != seconds[j]);
    }
    assert forall|i: int, j: int| 0 <= i < rows.len() && 0 <= j < rows.len() implies rows[i].request_id
        != rows[j].notification_id by {
        assert(firsts[i] != seconds[j]);
    }
    assert forall|i: int| 0 <= i < rows.len() implies !bucket_issued(buckets[0]).contains(
        #[trigger] rows[i].request_id,
    ) && !bucket_issued(buckets[0]).contains(rows[i].notification_id) && bucket_issued(
        buckets[rows.len() as int],
    ).contains(rows[i].request_id) && bucket_issued(buckets[rows.len() as int]).contains(
        rows[i].notification_id,
    ) by {
        assert(firsts[i] == rows[i].request_id);
        assert(seconds[i] == rows[i].notification_id);
    }
}

proof fn lemma_encode_utf8_len(s: Seq<char>)
    ensures
        encode_utf8(s).len() >= s.len(),
    decreases s.len(),
{
    if s.len() > 0 {
        lemma_encode_utf8_len(s.drop_first());
    }
}

/// A conversation preview is at most 30 characters long and begins with
/// the message's own first characters: the whole message, or a prefix of
/// it followed by `...`.
pub proof fn lemma_preview_shape(d: Seq<char>)
    ensures
        message_preview(d).len() <= 30,
        encode_utf8(d).len() <= 30 ==> message_preview(d) == d,
        encode_utf8(d).len() > 30 ==> ({
            let k = if d.len() < 27 {
                d.len() as int
            } else {
                27
            };
            &&& message_preview(d).subrange(0, k) == d.subrange(0, k)
            &&& message_preview(d).subrange(k, message_preview(d).len() as int) == "..."@
        }),
{
    reveal_strlit("...");
    lemma_encode_utf8_len(d);
    if encode_utf8(d).len() > 30 {
        let k = if d.len() < 27 {
            d.len() as int
        } else {
            27
        };
        let p = message_preview(d);
        assert(p.subrange(0, k) =~= d.subrange(0, k));
        assert(p.subrange(k, p.len() as int) =~= "..."@);
    }
}

/// A private message is stored under the conversation that both of its
/// users read: the stored pair is the pair either side's history request
/// asks for (ids up to `i64::MAX`, as every user id is).
pub proof fn lemma_stored_pair_is_read_pair(sender: u64, receiver: u64)
    requires
        sender <= i64::MAX,
        receiver <= i64::MAX,
    ensures
        stored_pair(sender, receiver) == conversation_pair(sender as i64, receiver as i64),
        stored_pair(sender, receiver) == conversation_pair(receiver as i64, sender as i64),
{
}

} // verus!
