use termchat::wire::{
    action_request, ban_user_request, change_icon_request, change_username_request,
    get_messages_request, login_request, object, promote_user_request, register_request,
    send_message_request, server_response_message, unban_user_request, ServerReply,
};

#[test]
fn register_request_text() {
    assert_eq!(
        register_request("neo", "pw", "*"),
        r#"{"action":"register","payload":{"icon":"*","password":"pw","username":"neo"}}"#
    );
}

#[test]
fn login_request_text() {
    assert_eq!(
        login_request("neo", "pw"),
        r#"{"action":"login","payload":{"password":"pw","username":"neo"}}"#
    );
}

#[test]
fn strings_are_escaped() {
    assert_eq!(
        send_message_request("u1", "say \"hi\"\n"),
        r#"{"action":"send_message","payload":{"content":"say \"hi\"\n","sender_id":"u1"}}"#
    );
}

#[test]
fn requests_match_what_serde_json_writes() {
    let mut payload = serde_json::Map::new();
    payload.insert("limit".to_string(), serde_json::Value::from(25u64));
    let mut top = serde_json::Map::new();
    top.insert("action".to_string(), serde_json::Value::from("get_messages"));
    top.insert("payload".to_string(), serde_json::Value::Object(payload));
    assert_eq!(get_messages_request(25), serde_json::Value::Object(top).to_string());
}

#[test]
fn admin_requests_text() {
    assert_eq!(
        ban_user_request("a", "t", "spam"),
        r#"{"action":"ban_user","payload":{"admin_id":"a","reason":"spam","target_id":"t"}}"#
    );
    assert_eq!(
        unban_user_request("a", "t"),
        r#"{"action":"unban_user","payload":{"admin_id":"a","target_id":"t"}}"#
    );
    assert_eq!(
        promote_user_request("a", "t"),
        r#"{"action":"promote_user","payload":{"admin_id":"a","target_id":"t"}}"#
    );
}

#[test]
fn profile_requests_text() {
    assert_eq!(
        change_username_request("u", "neo"),
        r#"{"action":"change_username","payload":{"new_username":"neo","user_id":"u"}}"#
    );
    assert_eq!(
        change_icon_request("u", "*"),
        r#"{"action":"change_icon","payload":{"new_icon":"*","user_id":"u"}}"#
    );
}

#[test]
fn empty_object_and_payload() {
    assert_eq!(object(&Vec::new()), "{}");
    assert_eq!(action_request("ping", &Vec::new()), r#"{"action":"ping","payload":{}}"#);
}

#[test]
fn reply_messages() {
    let ok = ServerReply { success: Some(true), error: Some("ignored".to_string()) };
    assert_eq!(server_response_message(&ok), Some("successful    ".to_string()));
    let bad = ServerReply { success: Some(false), error: Some("nope".to_string()) };
    assert_eq!(server_response_message(&bad), Some("nope".to_string()));
    let bare = ServerReply { success: None, error: None };
    assert_eq!(server_response_message(&bare), None);
}

#[test]
fn control_characters_are_escaped_in_hex() {
    assert_eq!(
        send_message_request("u", "a\u{1}\u{1f}\t\\"),
        r#"{"action":"send_message","payload":{"content":"a\u0001\u001f\t\\","sender_id":"u"}}"#
    );
}
