//! Websocket traffic: who may connect, who sent a frame, and which handler
//! its action names.
use vstd::prelude::*;
use crate::text::{parse_u64, spec_parse_u64, str_eq};

verus! {

/// The handler a websocket frame is meant for.
#[derive(Clone, Copy, Debug, PartialEq, Eq, Structural)]
pub enum WsAction {
    SendMessagePrivate,
    CreateGroup,
    SendRequest,
    SendGroupMessage,
    /// An action no handler knows; the frame is only logged.
    Invalid,
}

/// The handler named by an action.
pub open spec fn action_for(action: Seq<char>) -> WsAction {
    if action == "sendMessagePrivate"@ {
        WsAction::SendMessagePrivate
    } else if action == "createGroup"@ {
        WsAction::CreateGroup
    } else if action == "sendRequest"@ {
        WsAction::SendRequest
    } else if action == "sendGroupMessage"@ {
        WsAction::SendGroupMessage
    } else {
        WsAction::Invalid
    }
}

/// The handler named by an action.
pub fn route_action(action: &str) -> (res: WsAction)
    ensures
        res == action_for(action@),
{
    if str_eq(action, "sendMessagePrivate") {
        WsAction::SendMessagePrivate
    } else if str_eq(action, "createGroup") {
        WsAction::CreateGroup
    } else if str_eq(action, "sendRequest") {
        WsAction::SendRequest
    } else if str_eq(action, "sendGroupMessage") {
        WsAction::SendGroupMessage
    } else {
        WsAction::Invalid
    }
}

/// Where a frame goes: the sender is the user its access token names (a
/// `u64`); a frame whose token names none is dropped (`None`).
pub fn frame_target(access_token: &str, action: &str) -> (res: Option<(u64, WsAction)>)
    ensures
        res == (match spec_parse_u64(access_token@) {
            Some(user) => Some((user, action_for(action@))),
            None => None,
        }),
{
    match parse_u64(access_token) {
        Some(user) => Some((user, route_action(action))),
        None => None,
    }
}

/// Who a new connection belongs to, from its `userid` query parameter:
/// `None` for user `0`, which is refused.
pub fn connection_user(param: &str) -> (res: Option<u64>)
    requires
        spec_parse_u64(param@) is Some,
    ensures
        res == (if spec_parse_u64(param@) == Some(0u64) {
            None
        } else {
            spec_parse_u64(param@)
        }),
{
    match parse_u64(param) {
        Some(id) => if id == 0 {
            None
        } else {
            Some(id)
        },
        None => None,
    }
}

} // verus!
