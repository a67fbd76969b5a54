use termchat::send::is_whitespace;
use termchat::clock::decimal_string;
use termchat::bridge::{inbound_message, outbound_frame, receive_frame};
use termchat::clock::{relative_time, relative_time_at};
use termchat::editor::InputEditor;
use termchat::feed::{MessageFeed, FEED_CAPACITY};
use termchat::model::{App, AuthMode, ChatMessage, InputBox, Page, ICON_COUNT};
use termchat::scroll::{compute_max_scroll, ScrollState};
use termchat::screen::{ChatKey, ChatScreen};
use termchat::send::{trim_chars, SendThrottle};

fn msg(i: usize) -> ChatMessage {
    ChatMessage {
        user: "u".to_string(),
        icon: None,
        content: format!("#{}", i),
        timestamp: Some(i as i64),
    }
}

fn editor_with(s: &str) -> InputEditor {
    let mut e = InputEditor::new();
    for c in s.chars() {
        e.insert_char(c);
    }
    e
}

#[test]
fn feed_keeps_everything_under_capacity() {
    let mut f = MessageFeed::new();
    for i in 1..=3 {
        f.push(msg(i));
    }
    assert_eq!(f.len(), 3);
    let contents: Vec<&str> = f.messages_vec().iter().map(|m| m.content.as_str()).collect();
    assert_eq!(contents, vec!["#1", "#2", "#3"]);
}

#[test]
fn feed_evicts_the_oldest_message() {
    let mut f = MessageFeed::new();
    for i in 1..=1001 {
        f.push(msg(i));
    }
    assert_eq!(f.len(), FEED_CAPACITY);
    let v = f.messages_vec();
    assert_eq!(v[0].content, "#2");
    assert_eq!(v[999].content, "#1001");
    for (k, m) in v.iter().enumerate() {
        assert_eq!(m.content, format!("#{}", k + 2));
    }
}

#[test]
fn feed_stays_bounded_over_many_pushes() {
    let mut f = MessageFeed::new();
    for i in 1..=2500 {
        f.push(msg(i));
        assert!(f.len() <= FEED_CAPACITY);
    }
    assert_eq!(f.messages_vec()[0].content, "#1501");
}

#[test]
fn max_scroll_counts_padding_and_floors_at_zero() {
    assert_eq!(compute_max_scroll(10, 5), 7);
    assert_eq!(compute_max_scroll(3, 5), 0);
    assert_eq!(compute_max_scroll(0, 0), 2);
}

#[test]
fn pinned_view_follows_new_lines() {
    let mut s = ScrollState::new();
    s.redraw(10, 5);
    assert_eq!(s.scroll_offset, s.max_scroll);
    assert_eq!(s.max_scroll, 7);
    s.redraw(20, 5);
    assert_eq!(s.scroll_offset, 17);
    assert!(s.auto_scroll);
}

#[test]
fn scrolling_up_unpins_and_down_to_bottom_repins() {
    let mut s = ScrollState::new();
    s.redraw(10, 5);
    s.scroll_up();
    assert!(!s.auto_scroll);
    assert_eq!(s.scroll_offset, 6);
    s.redraw(30, 5);
    assert_eq!(s.scroll_offset, 6);
    s.redraw(10, 5);
    s.scroll_down();
    assert_eq!(s.scroll_offset, 7);
    assert!(s.auto_scroll);
}

#[test]
fn manual_view_is_clamped_when_content_shrinks() {
    let mut s = ScrollState::new();
    s.redraw(40, 5);
    s.scroll_up();
    s.redraw(3, 5);
    assert_eq!(s.max_scroll, 0);
    assert_eq!(s.scroll_offset, 0);
    assert!(!s.auto_scroll);
}

#[test]
fn scroll_up_at_top_does_nothing() {
    let mut s = ScrollState::new();
    s.scroll_up();
    assert_eq!(s, ScrollState::new());
}

#[test]
fn trim_removes_outer_white_space() {
    let v: Vec<char> = "  hi there \n\t".chars().collect();
    assert_eq!(trim_chars(&v), "hi there");
    let v: Vec<char> = " \u{3000} ".chars().collect();
    assert_eq!(trim_chars(&v), "");
}

#[test]
fn basic_send() {
    let mut e = editor_with("hi");
    let mut t = SendThrottle::new();
    let out = t.try_send(&mut e, 1_000);
    assert_eq!(out, Some("hi".to_string()));
    assert_eq!(e.value(), "");
    assert_eq!(e.cursor(), 0);
    assert_eq!(t.last_sent, Some(1_000));
}

#[test]
fn second_send_inside_cooldown_is_dropped() {
    let mut e = editor_with("hi");
    let mut t = SendThrottle::new();
    assert_eq!(t.try_send(&mut e, 1_000), Some("hi".to_string()));
    let mut e = editor_with("hi");
    assert_eq!(t.try_send(&mut e, 1_499), None);
    assert_eq!(e.value(), "hi");
    assert_eq!(e.cursor(), 2);
    assert_eq!(t.try_send(&mut e, 1_500), Some("hi".to_string()));
}

#[test]
fn blank_message_is_not_sent() {
    let mut e = editor_with("   ");
    let mut t = SendThrottle::new();
    assert_eq!(t.try_send(&mut e, 0), None);
    assert_eq!(e.value(), "   ");
    assert_eq!(t.last_sent, None);
}

#[test]
fn sent_message_is_trimmed() {
    let mut e = editor_with("  yo  ");
    let mut t = SendThrottle::new();
    assert_eq!(t.try_send(&mut e, 0), Some("yo".to_string()));
}

#[test]
fn undecodable_frame_becomes_system_message() {
    let raw = "not-json";
    let decoded: Option<ChatMessage> = match serde_json::from_str::<serde_json::Value>(raw) {
        Ok(_) => panic!("unexpectedly decoded"),
        Err(_) => None,
    };
    let m = inbound_message(decoded, raw, 42);
    assert_eq!(m.user, "system");
    assert_eq!(m.content, "not-json");
    assert_eq!(m.icon.as_deref(), Some("\u{f06a9}"));
    assert_eq!(m.timestamp, Some(42));
}

#[test]
fn decoded_frame_is_kept_as_is() {
    let m = inbound_message(Some(msg(7)), "ignored", 42);
    assert_eq!(m.content, "#7");
    assert_eq!(m.timestamp, Some(7));
}

#[test]
fn received_raw_frame_is_stamped_with_the_time() {
    let m = receive_frame(None, "hello");
    assert_eq!(m.user, "system");
    assert_eq!(m.content, "hello");
    assert!(m.timestamp.unwrap() > 1_600_000_000);
}

#[test]
fn blank_outbound_messages_are_filtered() {
    assert!(outbound_frame("hi"));
    assert!(!outbound_frame("  \t "));
    assert!(!outbound_frame(""));
}

#[test]
fn relative_labels() {
    assert_eq!(relative_time_at(100, 100), Some("now".to_string()));
    assert_eq!(relative_time_at(200, 100), Some("now".to_string()));
    assert_eq!(relative_time_at(100, 159), Some("59s".to_string()));
    assert_eq!(relative_time_at(0, 60), Some("1m".to_string()));
    assert_eq!(relative_time_at(0, 3599), Some("59m".to_string()));
    assert_eq!(relative_time_at(0, 7200), Some("2h".to_string()));
    assert_eq!(relative_time_at(0, 86400), None);
}

#[test]
fn old_message_shows_clock_time() {
    let s = relative_time(0);
    assert_eq!(s.len(), 5);
    assert_eq!(s.as_bytes()[2], b':');
}

#[test]
fn password_box_is_masked() {
    let mut b = InputBox::new("Password", true);
    b.value = "abcd".to_string();
    assert_eq!(b.display(), "blablablabla");
    let mut b = InputBox::new("Username", false);
    b.value = "neo".to_string();
    assert_eq!(b.display(), "neo");
    assert_eq!(b.label, "Username");
}

#[test]
fn app_starts_on_registration() {
    let a = App::new();
    assert_eq!(a.page, Page::Auth);
    assert_eq!(a.auth_mode, AuthMode::Register);
    assert_eq!(a.input_boxes.len(), 3);
    assert_eq!(a.input_boxes[1].label, "Password");
    assert!(a.input_boxes[1].is_password);
    assert_eq!(a.icons.len(), ICON_COUNT);
    assert_eq!(a.feed.len(), 0);
    assert!(a.chat.scroll.auto_scroll);
}

#[test]
fn screen_routes_keys() {
    let mut s = ChatScreen::new();
    for c in "hey".chars() {
        assert_eq!(s.handle_event(ChatKey::Char(c), 20, 0), None);
    }
    s.handle_event(ChatKey::ShiftEnter, 20, 0);
    s.handle_event(ChatKey::Char('x'), 20, 0);
    assert_eq!(s.editor.value(), "hey\nx");
    s.handle_event(ChatKey::Up, 20, 0);
    assert_eq!(s.editor.cursor(), 1);
    s.handle_event(ChatKey::End, 20, 0);
    assert_eq!(s.editor.cursor(), 3);
    s.handle_event(ChatKey::Backspace, 20, 0);
    assert_eq!(s.editor.value(), "he\nx");
    let sent = s.handle_event(ChatKey::Enter, 20, 10_000);
    assert_eq!(sent, Some("he\nx".to_string()));
    assert_eq!(s.editor.value(), "");
    s.handle_event(ChatKey::Char('a'), 20, 10_100);
    assert_eq!(s.handle_event(ChatKey::Enter, 20, 10_200), None);
    assert_eq!(s.editor.value(), "a");
}

#[test]
fn screen_scroll_keys_move_the_chat() {
    let mut s = ChatScreen::new();
    s.scroll.redraw(10, 5);
    s.handle_event(ChatKey::ScrollUp, 20, 0);
    assert_eq!(s.scroll.scroll_offset, 6);
    assert!(!s.scroll.auto_scroll);
    s.handle_event(ChatKey::ScrollDown, 20, 0);
    assert_eq!(s.scroll.scroll_offset, 7);
    assert!(s.scroll.auto_scroll);
}

#[test]
fn max_scroll_is_capped_at_the_largest_offset() {
    assert_eq!(compute_max_scroll(usize::MAX, 0), usize::MAX);
    assert_eq!(compute_max_scroll(usize::MAX, 2), usize::MAX);
    assert_eq!(compute_max_scroll(usize::MAX, 3), usize::MAX - 1);
    let mut s = ScrollState::new();
    s.redraw(usize::MAX, 1);
    assert_eq!(s.scroll_offset, usize::MAX);
    assert_eq!(s.max_scroll, usize::MAX);
}

#[test]
fn white_space_set() {
    for c in [' ', '\t', '\n', '\u{85}', '\u{a0}', '\u{2009}', '\u{3000}'] {
        assert!(is_whitespace(c));
        assert_eq!(is_whitespace(c), c.is_whitespace());
    }
    for c in ['a', '\u{200b}', '\u{1}', '中'] {
        assert!(!is_whitespace(c));
        assert_eq!(is_whitespace(c), c.is_whitespace());
    }
}

#[test]
fn decimal_digits() {
    assert_eq!(decimal_string(0), "0");
    assert_eq!(decimal_string(907), "907");
    assert_eq!(decimal_string(u64::MAX), u64::MAX.to_string());
}
