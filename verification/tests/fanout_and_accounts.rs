use chat_core::auth::{
    login_reply, login_verdict, signup, signup_with_id, CreateUserPayload, LoginLookup,
    LoginReply, SignupError,
};
use chat_core::batch::{window_remaining, BatchWindow, CloseRule, WindowEvent, WindowStep};
use chat_core::forward::{delivery_plan, ForwardWindow};
use chat_core::labels::ContentLabel;
use chat_core::records::GroupForwardMessage;
use chat_core::registry::{ChatEntry, GroupRegistry};
use chat_core::routing::{connection_user, frame_target, route_action, WsAction};
use chat_core::text::parse_u64;

#[test]
fn window_collects_in_arrival_order() {
    let mut w = BatchWindow::new();
    assert_eq!(w.step(WindowEvent::Received(1), CloseRule::Stop), WindowStep::Continue);
    assert_eq!(w.step(WindowEvent::Received(2), CloseRule::Stop), WindowStep::Continue);
    assert_eq!(w.step(WindowEvent::Elapsed, CloseRule::Stop), WindowStep::EndWindow);
    assert_eq!(w.finish(), Some(vec![1, 2]));
}

#[test]
fn closed_channel_follows_the_close_rule() {
    let mut w: BatchWindow<u8> = BatchWindow::new();
    assert_eq!(w.step(WindowEvent::Closed, CloseRule::Stop), WindowStep::Stop);
    assert_eq!(w.step(WindowEvent::Closed, CloseRule::EndWindow), WindowStep::EndWindow);
    assert_eq!(w.step(WindowEvent::Closed, CloseRule::KeepWaiting), WindowStep::Continue);
    assert_eq!(w.finish(), None);
}

#[test]
fn window_time_runs_out() {
    assert_eq!(window_remaining(15000, 0), Some(15000));
    assert_eq!(window_remaining(15000, 14999), Some(1));
    assert_eq!(window_remaining(15000, 15000), None);
    assert_eq!(window_remaining(15000, 20000), None);
}

#[test]
fn registry_registers_once() {
    let mut r = GroupRegistry::new();
    r.register(5, 1);
    r.register(5, 2);
    r.register(5, 1);
    assert_eq!(r.members(5), vec![1, 2]);
    assert_eq!(r.members(6), Vec::<i64>::new());
}

#[test]
fn conversation_list_registers_group_chats_only() {
    let mut r = GroupRegistry::new();
    let chats = vec![
        ChatEntry { chat_id: 10, is_group: true },
        ChatEntry { chat_id: 11, is_group: false },
        ChatEntry { chat_id: 12, is_group: true },
    ];
    r.register_group_chats(7, &chats);
    r.register_group_chats(7, &chats);
    assert_eq!(r.members(10), vec![7]);
    assert_eq!(r.members(11), Vec::<i64>::new());
    assert_eq!(r.members(12), vec![7]);
}

fn fwd(group_id: i64, message_id: i64, description: &str) -> GroupForwardMessage {
    GroupForwardMessage {
        group_id,
        sender_id: 3,
        message_id,
        content_type: ContentLabel::text,
        description: description.as_bytes().to_vec(),
    }
}

#[test]
fn payloads_keep_each_groups_messages_in_arrival_order() {
    let mut w = ForwardWindow::new();
    assert!(w.is_empty());
    w.record(fwd(100, 1, "\"a\""));
    w.record(fwd(200, 2, "{\"k\": [1, 2]}"));
    w.record(fwd(100, 3, "not json"));
    w.record(fwd(100, 4, "  \"b\" "));
    assert!(!w.is_empty());
    let ps = w.payloads();
    assert_eq!(ps.len(), 2);
    let p100 = ps.iter().find(|p| p.group_id == 100).unwrap();
    assert_eq!(
        p100.body,
        "[{\"group_id\":\"100\",\"sender_id\":\"3\",\"message_id\":\"1\",\"content_type\":\"text\",\"description\":\"a\"},{\"group_id\":\"100\",\"sender_id\":\"3\",\"message_id\":\"4\",\"content_type\":\"text\",\"description\":\"b\"}]"
    );
    let p200 = ps.iter().find(|p| p.group_id == 200).unwrap();
    assert_eq!(
        p200.body,
        "[{\"group_id\":\"200\",\"sender_id\":\"3\",\"message_id\":\"2\",\"content_type\":\"text\",\"description\":{\"k\": [1, 2]}}]"
    );
}

#[test]
fn group_without_json_bodies_gets_no_payload() {
    let mut w = ForwardWindow::new();
    w.record(fwd(100, 1, "{broken"));
    assert_eq!(w.payloads().len(), 0);
}

#[test]
fn deliveries_go_to_every_registered_member() {
    let mut r = GroupRegistry::new();
    r.register(100, 1);
    r.register(100, 2);
    r.register(300, 9);
    let mut w = ForwardWindow::new();
    w.record(fwd(100, 1, "1"));
    w.record(fwd(200, 2, "2"));
    let ps = w.payloads();
    assert_eq!(ps.len(), 2);
    let at = ps.iter().position(|p| p.group_id == 100).unwrap();
    assert_eq!(delivery_plan(&r, &ps), vec![(1, at), (2, at)]);
}

#[test]
fn negative_member_ids_are_reinterpreted() {
    let mut r = GroupRegistry::new();
    r.register(1, -1);
    let mut w = ForwardWindow::new();
    w.record(fwd(1, 1, "1"));
    assert_eq!(delivery_plan(&r, &w.payloads()), vec![(u64::MAX, 0)]);
}

#[test]
fn actions_route_by_name() {
    assert_eq!(route_action("sendMessagePrivate"), WsAction::SendMessagePrivate);
    assert_eq!(route_action("createGroup"), WsAction::CreateGroup);
    assert_eq!(route_action("sendRequest"), WsAction::SendRequest);
    assert_eq!(route_action("sendGroupMessage"), WsAction::SendGroupMessage);
    assert_eq!(route_action("sendgroupmessage"), WsAction::Invalid);
    assert_eq!(route_action(""), WsAction::Invalid);
}

#[test]
fn frames_need_a_numeric_token() {
    assert_eq!(frame_target("12", "createGroup"), Some((12, WsAction::CreateGroup)));
    assert_eq!(frame_target("abc", "createGroup"), None);
    assert_eq!(frame_target("-1", "createGroup"), None);
}

#[test]
fn user_zero_may_not_connect() {
    assert_eq!(connection_user("0"), None);
    assert_eq!(connection_user("15"), Some(15));
}

fn new_user(password: &str) -> CreateUserPayload {
    CreateUserPayload {
        username: "ann".to_string(),
        display_name: "Ann".to_string(),
        email: "ann@example.com".to_string(),
        password: password.to_string(),
    }
}

const SALT: &str = "c29tZXNhbHRzb21lc2FsdA";

#[test]
fn signup_then_login_gives_the_token() {
    let user = signup_with_id(&new_user("hunter2"), SALT, 1234).ok().unwrap();
    assert_eq!(user.user_id, 1234);
    assert_eq!(user.username, "ann");
    assert_eq!(user.display_name, "Ann");
    assert_eq!(user.email, "ann@example.com");
    assert!(user.pass_hash.starts_with("$argon2id$"));
    assert_ne!(user.pass_hash, "hunter2");
    let found = LoginLookup::Found { user_id: 1234, pass_hash: user.pass_hash.clone() };
    match login_reply(&found, "hunter2") {
        LoginReply::Token(t) => {
            assert_eq!(t, "1234");
            assert_eq!(parse_u64(&t), Some(1234));
        }
        _ => panic!("expected a token"),
    }
    assert!(matches!(login_reply(&found, "hunter3"), LoginReply::InvalidCredentials));
}

#[test]
fn signup_draws_an_id() {
    let mut ids = chat_core::ids::server_id_bucket();
    let user = signup(&new_user("pw"), SALT, &mut ids).ok().unwrap();
    assert!(user.user_id > 0);
}

#[test]
fn signup_with_a_bad_salt_fails() {
    assert!(matches!(signup_with_id(&new_user("pw"), "!", 1), Err(SignupError::HashingFailed)));
}

#[test]
fn login_refusals() {
    assert!(matches!(login_reply(&LoginLookup::Missing, "x"), LoginReply::InvalidCredentials));
    assert!(matches!(login_reply(&LoginLookup::Failed, "x"), LoginReply::DatabaseError));
    let bad = LoginLookup::Found { user_id: 1, pass_hash: "plain".to_string() };
    assert!(matches!(login_reply(&bad, "x"), LoginReply::InvalidHashFormat));
}

#[test]
fn login_verdicts() {
    assert!(matches!(login_verdict(5, None), LoginReply::InvalidHashFormat));
    assert!(matches!(login_verdict(5, Some(false)), LoginReply::InvalidCredentials));
    match login_verdict(-5, Some(true)) {
        LoginReply::Token(t) => assert_eq!(t, "-5"),
        _ => panic!("expected a token"),
    }
}

#[test]
fn a_repeated_message_id_forwards_the_latest_message() {
    let mut w = ForwardWindow::new();
    w.record(fwd(100, 1, "\"first\""));
    w.record(fwd(100, 1, "\"second\""));
    let ps = w.payloads();
    assert_eq!(ps.len(), 1);
    let one = "{\"group_id\":\"100\",\"sender_id\":\"3\",\"message_id\":\"1\",\"content_type\":\"text\",\"description\":\"second\"}";
    assert_eq!(ps[0].body, format!("[{},{}]", one, one));
}
