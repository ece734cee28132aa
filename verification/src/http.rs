//! Validation of the HTTP endpoints' inputs: who asks, and what they ask for.
use vstd::prelude::*;
use crate::records::Timestamp;
use crate::text::{parse_i64, spec_parse_i64, trim, trim_str, TrimSet};

verus! {

/// The ways an HTTP request is refused.
#[derive(Clone, Copy, Debug, PartialEq, Eq, Structural)]
pub enum HttpError {
    /// 401: no usable `userid` header.
    Unauthorized,
    /// 400: a required field is missing or malformed.
    BadRequest,
    /// 403: the user may not read what was asked for.
    Forbidden,
    /// 500: the database failed.
    InternalServerError,
}

/// The body of a conversation list request.
pub struct GetConversationPayload {
    pub request_time: Option<Timestamp>,
}

/// The body of a story list request.
pub struct GetStoriesPayload {
    pub request_time: Option<Timestamp>,
}

/// The body of a message history request.
pub struct ChatHistoryPayload {
    pub other_id: Option<String>,
    pub group_id: Option<String>,
    pub last_msg_time: Option<Timestamp>,
}

/// A validated private history request: the conversation's two users
/// (larger id first), the time before which messages are wanted, and who asks.
#[derive(Clone, Copy, Debug, PartialEq, Eq, Structural)]
pub struct PrivateHistoryQuery {
    pub user_a: i64,
    pub user_b: i64,
    pub before: Timestamp,
    pub viewer: i64,
}

/// A validated group history request.
#[derive(Clone, Copy, Debug, PartialEq, Eq, Structural)]
pub struct GroupHistoryQuery {
    pub viewer: i64,
    pub group_id: i64,
    pub before: Timestamp,
}

/// The outcome of looking a row up in the database.
#[derive(Clone, Copy, Debug, PartialEq, Eq, Structural)]
pub enum Lookup {
    Found,
    Missing,
    Failed,
}

/// The user named by a `userid` header: the value with surrounding
/// whitespace and then surrounding double quotes removed, read as an `i64`.
pub open spec fn header_user_id(h: Seq<char>) -> Option<i64> {
    spec_parse_i64(trim(trim(h, TrimSet::Whitespace), TrimSet::DoubleQuote))
}

pub open spec fn opt_header_user_id(h: Option<Seq<char>>) -> Option<i64> {
    match h {
        Some(v) => header_user_id(v),
        None => None,
    }
}

pub open spec fn opt_str_view(h: Option<&str>) -> Option<Seq<char>> {
    match h {
        Some(v) => Some(v@),
        None => None,
    }
}

/// The two users of a private conversation, larger id first.
pub open spec fn conversation_pair(me: i64, other: i64) -> (i64, i64) {
    if me > other {
        (me, other)
    } else {
        (other, me)
    }
}

/// The requesting user from the `userid` header (text of the header value,
/// `None` when absent or not text); 401 when it names no `i64`.
pub fn user_id_from_header(header: Option<&str>) -> (res: Result<i64, HttpError>)
    ensures
        res == (match opt_header_user_id(opt_str_view(header)) {
            Some(id) => Ok(id),
            None => Err(HttpError::Unauthorized),
        }),
{
    match header {
        Some(h) => {
            let t = trim_str(trim_str(h, TrimSet::Whitespace), TrimSet::DoubleQuote);
            match parse_i64(t) {
                Some(id) => Ok(id),
                None => Err(HttpError::Unauthorized),
            }
        },
        None => Err(HttpError::Unauthorized),
    }
}

/// The requesting user from the `userid` header read as is, without
/// trimming, as the group history endpoint reads it.
pub fn user_id_from_raw_header(header: Option<&str>) -> (res: Result<i64, HttpError>)
    ensures
        res == (match header {
            Some(h) => match spec_parse_i64(h@) {
                Some(id) => Ok(id),
                None => Err(HttpError::Unauthorized),
            },
            None => Err(HttpError::Unauthorized),
        }),
{
    match header {
        Some(h) => match parse_i64(h) {
            Some(id) => Ok(id),
            None => Err(HttpError::Unauthorized),
        },
        None => Err(HttpError::Unauthorized),
    }
}

/// A request that needs the requesting user and a reference time, as the
/// conversation and story lists do: 401 first, then 400 without a time.
pub fn timed_request(header: Option<&str>, request_time: Option<Timestamp>) -> (res: Result<
    (i64, Timestamp),
    HttpError,
>)
    ensures
        res == (match opt_header_user_id(opt_str_view(header)) {
            None => Err(HttpError::Unauthorized),
            Some(id) => match request_time {
                Some(t) => Ok((id, t)),
                None => Err(HttpError::BadRequest),
            },
        }),
{
    let id = match user_id_from_header(header) {
        Ok(id) => id,
        Err(e) => return Err(e),
    };
    match request_time {
        Some(t) => Ok((id, t)),
        None => Err(HttpError::BadRequest),
    }
}

/// Validates a private history request: 401 without a user; 400 unless both
/// the other user (an `i64`) and the time are given.
pub fn private_history_query(header: Option<&str>, payload: &ChatHistoryPayload) -> (res: Result<
    PrivateHistoryQuery,
    HttpError,
>)
    ensures
        res == (match opt_header_user_id(opt_str_view(header)) {
            None => Err(HttpError::Unauthorized),
            Some(me) => match (opt_string_id(payload.other_id), payload.last_msg_time) {
                (Some(Some(other)), Some(t)) => Ok(
                    PrivateHistoryQuery {
                        user_a: conversation_pair(me, other).0,
                        user_b: conversation_pair(me, other).1,
                        before: t,
                        viewer: me,
                    },
                ),
                _ => Err(HttpError::BadRequest),
            },
        }),
{
    let me = match user_id_from_header(header) {
        Ok(id) => id,
        Err(e) => return Err(e),
    };
    let (other_text, t) = match (&payload.other_id, payload.last_msg_time) {
        (Some(o), Some(t)) => (o, t),
        _ => return Err(HttpError::BadRequest),
    };
    let other = match parse_i64(other_text.as_str()) {
        Some(v) => v,
        None => return Err(HttpError::BadRequest),
    };
    let (user_a, user_b) = if me > other {
        (me, other)
    } else {
        (other, me)
    };
    Ok(PrivateHistoryQuery { user_a, user_b, before: t, viewer: me })
}

/// An optional id field: `None` when absent, `Some(None)` when present but
/// no `i64`.
pub open spec fn opt_string_id(s: Option<String>) -> Option<Option<i64>> {
    match s {
        Some(v) => Some(spec_parse_i64(v@)),
        None => None,
    }
}

/// Validates a group history request: 401 unless the raw header is an
/// `i64`; 400 unless both the group (an `i64`) and the time are given.
pub fn group_history_query(header: Option<&str>, payload: &ChatHistoryPayload) -> (res: Result<
    GroupHistoryQuery,
    HttpError,
>)
    ensures
        res == (match header {
            None => Err(HttpError::Unauthorized),
            Some(h) => match spec_parse_i64(h@) {
                None => Err(HttpError::Unauthorized),
                Some(me) => match (opt_string_id(payload.group_id), payload.last_msg_time) {
                    (Some(Some(g)), Some(t)) => Ok(
                        GroupHistoryQuery { viewer: me, group_id: g, before: t },
                    ),
                    _ => Err(HttpError::BadRequest),
                },
            },
        }),
{
    let me = match user_id_from_raw_header(header) {
        Ok(id) => id,
        Err(e) => return Err(e),
    };
    let (group_text, t) = match (&payload.group_id, payload.last_msg_time) {
        (Some(g), Some(t)) => (g, t),
        _ => return Err(HttpError::BadRequest),
    };
    match parse_i64(group_text.as_str()) {
        Some(g) => Ok(GroupHistoryQuery { viewer: me, group_id: g, before: t }),
        None => Err(HttpError::BadRequest),
    }
}

/// Whether a group's history may be read, given the membership lookup:
/// 500 when the lookup failed, 403 when the user is no member.
pub fn membership_gate(lookup: Lookup) -> (res: Result<(), HttpError>)
    ensures
        res == (match lookup {
            Lookup::Found => Ok(()),
            Lookup::Missing => Err(HttpError::Forbidden),
            Lookup::Failed => Err(HttpError::InternalServerError),
        }),
{
    match lookup {
        Lookup::Found => Ok(()),
        Lookup::Missing => Err(HttpError::Forbidden),
        Lookup::Failed => Err(HttpError::InternalServerError),
    }
}

/// How many stories one page holds.
pub const STORY_PAGE: usize = 20;

/// After the direct story notifications came back with `found` stories, how
/// many stories of followed heavy users to ask for: the rest of the page, or
/// none when the page is full.
pub fn stories_followup(found: usize) -> (res: Option<i64>)
    ensures
        res == (if found < STORY_PAGE {
            Some((STORY_PAGE - found) as i64)
        } else {
            None
        }),
{
    if found < STORY_PAGE {
        Some((STORY_PAGE - found) as i64)
    } else {
        None
    }
}

} // verus!
