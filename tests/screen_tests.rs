use termchat::layout::visible_range;
use termchat::layout::first_visible_row;
use termchat::auth::{auth_error_message, AuthAction, AuthKey};
use termchat::layout::{chat_lines, input_box_height, ChatLine};
use termchat::model::{App, AuthMode, ChatMessage, Page};

fn from(user: &str, content: &str) -> ChatMessage {
    ChatMessage { user: user.to_string(), icon: None, content: content.to_string(), timestamp: None }
}

fn body(s: &str) -> ChatLine {
    ChatLine::Body(s.to_string())
}

#[test]
fn headers_only_where_the_sender_changes() {
    let msgs = vec![from("ann", "hi"), from("ann", "again"), from("bob", "yo")];
    let lines = chat_lines(&msgs, 20);
    assert_eq!(
        lines,
        vec![
            ChatLine::Header(0),
            body("│ hi"),
            body("│ again"),
            ChatLine::Header(2),
            body("│ yo"),
        ]
    );
}

#[test]
fn long_message_body_wraps_under_its_prefix() {
    let msgs = vec![from("ann", "abcdefgh")];
    let lines = chat_lines(&msgs, 6);
    assert_eq!(lines, vec![ChatLine::Header(0), body("│ abcd"), body("│ efgh")]);
}

#[test]
fn empty_message_still_shows_a_body_line() {
    let msgs = vec![from("ann", "")];
    assert_eq!(chat_lines(&msgs, 10), vec![ChatLine::Header(0), body("│ ")]);
}

#[test]
fn no_messages_no_lines() {
    assert!(chat_lines(&Vec::new(), 10).is_empty());
}

#[test]
fn input_box_height_is_clamped() {
    assert_eq!(input_box_height(0), 3);
    assert_eq!(input_box_height(1), 3);
    assert_eq!(input_box_height(4), 6);
    assert_eq!(input_box_height(6), 8);
    assert_eq!(input_box_height(50), 8);
}

#[test]
fn focus_cycles_through_fields_and_button() {
    let mut app = App::new();
    for expected in [1, 2, 3, 0] {
        app.handle_event(AuthKey::Tab, 0);
        assert_eq!(app.focus, expected);
    }
    app.handle_event(AuthKey::Up, 0);
    assert_eq!(app.focus, 3);
    app.handle_event(AuthKey::CtrlT, 0);
    assert_eq!(app.auth_mode, AuthMode::Login);
    assert_eq!(app.focus, 0);
    app.handle_event(AuthKey::BackTab, 0);
    assert_eq!(app.focus, 2);
}

#[test]
fn typing_and_erasing_in_a_field() {
    let mut app = App::new();
    for c in "neo".chars() {
        app.handle_event(AuthKey::Char(c), 0);
    }
    assert_eq!(app.input_boxes[0].value, "neo");
    assert_eq!(app.input_boxes[0].cursor, 3);
    app.handle_event(AuthKey::Backspace, 0);
    assert_eq!(app.input_boxes[0].value, "ne");
    assert_eq!(app.input_boxes[0].cursor, 2);
}

#[test]
fn capital_letters_switch_mode_or_quit() {
    let mut app = App::new();
    app.handle_event(AuthKey::Char('L'), 0);
    assert_eq!(app.auth_mode, AuthMode::Login);
    app.handle_event(AuthKey::Char('R'), 0);
    assert_eq!(app.auth_mode, AuthMode::Register);
    assert!(matches!(app.handle_event(AuthKey::Char('Q'), 0), AuthAction::Quit));
    assert!(app.should_quit);
}

#[test]
fn icon_picker_wraps_around() {
    let mut app = App::new();
    app.focus = 2;
    app.handle_event(AuthKey::Left, 0);
    assert_eq!(app.icon_index, app.icons.len() - 1);
    assert_eq!(app.current_icon, app.icons[app.icons.len() - 1]);
    app.handle_event(AuthKey::Right, 0);
    assert_eq!(app.icon_index, 0);
    assert_eq!(app.current_icon, app.icons[0]);
    app.handle_event(AuthKey::Char('x'), 0);
    assert_eq!(app.input_boxes[2].value, "");
}

#[test]
fn submit_without_credentials_shows_error() {
    let mut app = App::new();
    app.input_boxes[0].value = "  ".to_string();
    app.focus = 3;
    let action = app.handle_event(AuthKey::Enter, 77);
    assert!(matches!(action, AuthAction::Nothing));
    assert_eq!(app.error.as_deref(), Some("Username and Password required"));
    assert_eq!(app.error_time_ms, Some(77));
    assert_eq!(app.input_boxes[0].value, "");
    assert!(!app.is_loading);
}

#[test]
fn submit_hands_out_trimmed_credentials() {
    let mut app = App::new();
    app.input_boxes[0].value = " neo ".to_string();
    app.input_boxes[1].value = "pw".to_string();
    app.current_icon = "*".to_string();
    app.focus = 3;
    match app.handle_event(AuthKey::Enter, 0) {
        AuthAction::Submit { register, username, password, icon } => {
            assert!(register);
            assert_eq!(username, "neo");
            assert_eq!(password, "pw");
            assert_eq!(icon, "*");
        }
        _ => panic!("expected a submission"),
    }
    assert!(app.is_loading);
    assert!(matches!(app.handle_event(AuthKey::Enter, 0), AuthAction::Nothing));
}

#[test]
fn answers_to_a_submission() {
    let mut app = App::new();
    app.is_loading = true;
    app.finish_auth(Ok("tok".to_string()), 5);
    assert_eq!(app.token.as_deref(), Some("tok"));
    assert_eq!(app.page, Page::Home);
    assert!(!app.is_loading);

    let mut app = App::new();
    app.input_boxes[1].value = "pw".to_string();
    app.finish_auth(Err("Register failed: 409 conflict".to_string()), 9);
    assert_eq!(app.error.as_deref(), Some("409: User already exists, use a pretty name :3"));
    assert_eq!(app.error_time_ms, Some(9));
    assert_eq!(app.input_boxes[1].value, "");
    assert_eq!(app.page, Page::Auth);
}

#[test]
fn error_messages_by_status() {
    assert_eq!(
        auth_error_message("Login failed: 401".to_string()),
        "Incorrect password, ya forgot ? it's 1234 ofc"
    );
    assert_eq!(auth_error_message("timeout".to_string()), "timeout");
}

#[test]
fn visible_window_of_the_chat() {
    assert_eq!(visible_range(10, 3, 4), (3, 7));
    assert_eq!(visible_range(10, 8, 4), (8, 10));
    assert_eq!(visible_range(10, 12, 4), (10, 10));
    assert_eq!(visible_range(0, 0, 5), (0, 0));
}

#[test]
fn input_box_scrolls_to_keep_the_cursor_line() {
    assert_eq!(first_visible_row(0, 3), 0);
    assert_eq!(first_visible_row(2, 3), 0);
    assert_eq!(first_visible_row(3, 3), 1);
    assert_eq!(first_visible_row(9, 6), 4);
}
