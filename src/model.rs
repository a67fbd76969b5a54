//! The chat client's plain data: messages, theme colours, pages and the
//! application state.

use vstd::prelude::*;
use crate::feed::MessageFeed;
use crate::screen::ChatScreen;
use crate::text::{byte_len, push_char};

verus! {

/// One chat message as the server sends it.
#[derive(Clone, Debug)]
pub struct ChatMessage {
    pub user: String,
    pub icon: Option<String>,
    pub content: String,
    pub timestamp: Option<i64>,
}

/// A colour as red, green and blue.
#[derive(Clone, Copy, Debug, PartialEq, Eq)]
pub struct Rgb(pub u8, pub u8, pub u8);

/// The colours the screens draw with.
#[derive(Clone, Copy, Debug, PartialEq, Eq)]
pub struct Theme {
    pub border: Rgb,
    pub border_focus: Rgb,
    pub button_focus: Rgb,
    pub text: Rgb,
}

/// The screen that is showing.
#[derive(Clone, Copy, Debug, PartialEq, Eq, Structural)]
pub enum Page {
    Auth,
    Home,
    Chat,
}

/// Whether the authentication screen logs in or registers.
#[derive(Clone, Copy, Debug, PartialEq, Eq, Structural)]
pub enum AuthMode {
    Login,
    Register,
}

/// Body of a registration request.
#[derive(Clone, Debug)]
pub struct RegisterInput {
    pub username: String,
    pub password_hash: String,
    pub icon: String,
}

/// Body of a login request.
#[derive(Clone, Debug)]
pub struct LoginInput {
    pub username: String,
    pub password_hash: String,
}

/// The server's answer to a successful login or registration.
#[derive(Clone, Debug)]
pub struct TokenResponse {
    pub token: String,
}

/// A labelled text field of the authentication screen.
#[derive(Clone, Debug)]
pub struct InputBox {
    pub value: String,
    pub cursor: usize,
    pub is_password: bool,
    pub label: String,
}

/// `n` repetitions of "bla", which stands in for a hidden password.
pub open spec fn masked(n: nat) -> Seq<char>
    decreases n,
{
    if n == 0 {
        Seq::empty()
    } else {
        masked((n - 1) as nat) + seq!['b', 'l', 'a']
    }
}

impl InputBox {
    /// An empty field with the given label.
    pub fn new(label: &str, is_password: bool) -> (r: Self)
        ensures
            r.value@ == Seq::<char>::empty(),
            r.cursor == 0,
            r.is_password == is_password,
            r.label@ == label@,
    {
        InputBox { value: String::new(), cursor: 0, is_password, label: label.to_owned() }
    }

    /// What the field shows: the value, or for a password "bla" once per
    /// byte of the value.
    pub fn display(&self) -> (r: String)
        ensures
            self.is_password ==> r@ == masked((byte_len(self.value@) as usize) as nat),
            !self.is_password ==> r@ == self.value@,
    {
        if self.is_password {
            let n = self.value.as_str().len();
            let mut s = String::new();
            let mut i: usize = 0;
            while i < n
                invariant
                    i <= n,
                    s@ == masked(i as nat),
                decreases n - i,
            {
                push_char(&mut s, 'b');
                push_char(&mut s, 'l');
                push_char(&mut s, 'a');
                proof {
                    assert(s@ =~= masked((i + 1) as nat));
                }
                i = i + 1;
            }
            s
        } else {
            self.value.clone()
        }
    }
}

/// The whole client's state, owned by the event loop. Times are
/// milliseconds on the loop's own clock.
pub struct App {
    pub page: Page,
    pub auth_mode: AuthMode,
    pub input_boxes: Vec<InputBox>,
    pub focus: usize,
    pub error: Option<String>,
    pub error_time_ms: Option<u64>,
    pub token: Option<String>,
    pub is_loading: bool,
    pub feed: MessageFeed,
    pub chat: ChatScreen,
    pub should_quit: bool,
    pub icon_index: usize,
    pub icons: Vec<String>,
    pub current_icon: String,
    pub input_scroll: u16,
    pub input_width: usize,
    pub cursor_tick_state: bool,
    pub last_cursor_toggle_ms: u64,
}

/// Number of icons a user can pick from.
pub const ICON_COUNT: usize = 48;

impl App {
    /// The start state: the registration form, focus on its first field.
    pub fn new() -> (r: Self)
        ensures
            r.page == Page::Auth,
            r.auth_mode == AuthMode::Register,
            r.input_boxes@.len() == 3,
            r.input_boxes@[0].label@ == "Username"@ && !r.input_boxes@[0].is_password,
            r.input_boxes@[1].label@ == "Password"@ && r.input_boxes@[1].is_password,
            r.input_boxes@[2].label@ == "Icon"@ && !r.input_boxes@[2].is_password,
            forall|i: int| 0 <= i < 3 ==> (#[trigger] r.input_boxes@[i]).value@.len() == 0
                && r.input_boxes@[i].cursor == 0,
            r.focus == 0,
            r.error is None && r.error_time_ms is None && r.token is None,
            !r.is_loading && !r.should_quit,
            r.feed.wf() && r.feed.messages().len() == 0,
            r.chat.wf() && r.chat.editor.text().len() == 0 && r.chat.editor.pos() == 0,
            r.chat.scroll.auto_scroll && r.chat.scroll.scroll_offset == 0 && r.chat.scroll.max_scroll == 0,
            r.chat.throttle.last_sent is None,
            r.icon_index == 0,
            r.icons@.len() == ICON_COUNT,
            r.current_icon@.len() == 0,
            r.input_scroll == 0 && r.input_width == 0,
            r.cursor_tick_state && r.last_cursor_toggle_ms == 0,
    {
        let mut input_boxes: Vec<InputBox> = Vec::new();
        input_boxes.push(InputBox::new("Username", false));
        input_boxes.push(InputBox::new("Password", true));
        input_boxes.push(InputBox::new("Icon", false));
        let icons: Vec<String> = vec![
            "\u{db}\u{221e}\u{b1}\u{ae}".to_owned(),
            "\u{db}\u{221e}\u{b1}\u{a9}".to_owned(),
            "\u{db}\u{221e}\u{b1}\u{b4}".to_owned(),
            "\u{db}\u{221e}\u{d1}\u{f5}".to_owned(),
            "\u{db}\u{221e}\u{e4}\u{f1}".to_owned(),
            "\u{db}\u{b1}\u{c9}\u{fb}".to_owned(),
            "\u{db}\u{221e}\u{b1}\u{a8}".to_owned(),
            "\u{db}\u{221e}\u{b1}\u{c6}".to_owned(),
            "\u{db}\u{221e}\u{b1}\u{d8}".to_owned(),
            "\u{db}\u{221e}\u{b1}\u{221e}".to_owned(),
            "\u{db}\u{221e}\u{3a9}\u{e5}".to_owned(),
            "\u{db}\u{221e}\u{b1}\u{b1}".to_owned(),
            "\u{db}\u{221e}\u{b1}\u{2264}".to_owned(),
            "\u{db}\u{b1}\u{e0}\u{ee}".to_owned(),
            "\u{db}\u{221e}\u{b1}\u{220f}".to_owned(),
            "\u{db}\u{221e}\u{e1}\u{2265}".to_owned(),
            "\u{d4}\u{c4}\u{e1}".to_owned(),
            "\u{d3}\u{2211}\u{d6}".to_owned(),
            "\u{d4}\u{e4}\u{3a9}".to_owned(),
            "\u{d3}\u{2211}\u{e3}".to_owned(),
            "\u{d4}\u{c9}\u{221e}".to_owned(),
            "\u{d3}\u{2211}\u{e9}".to_owned(),
            "\u{d4}\u{e0}\u{f5}".to_owned(),
            "\u{d3}\u{2211}\u{ed}".to_owned(),
            "\u{d4}\u{c9}\u{c4}".to_owned(),
            "\u{db}\u{b1}\u{a2}\u{d8}".to_owned(),
            "\u{d3}\u{aa}\u{e6}".to_owned(),
            "\u{db}\u{221e}\u{e1}\u{fc}".to_owned(),
            "\u{db}\u{221e}\u{fb}\u{d6}".to_owned(),
            "\u{f8ff}\u{fc}\u{a7}\u{ec}\u{f8ff}\u{fc}\u{eb}\u{dc}".to_owned(),
            "\u{f8ff}\u{fc}\u{f3}\u{f8}".to_owned(),
            "\u{f8ff}\u{fc}\u{df}\u{eb}\u{201a}\u{c4}\u{e7}\u{f8ff}\u{fc}\u{ed}\u{aa}".to_owned(),
            "\u{db}\u{221e}\u{b1}\u{a5}".to_owned(),
            "\u{db}\u{221e}\u{e1}\u{2211}".to_owned(),
            "\u{db}\u{b1}\u{ef}\u{ba}".to_owned(),
            "\u{db}\u{221e}\u{e1}\u{3c0}".to_owned(),
            "\u{d3}\u{3c0}\u{c5}".to_owned(),
            "\u{d3}\u{ba}\u{e1}".to_owned(),
            "\u{d3}\u{220f}\u{e7}".to_owned(),
            "\u{d3}\u{2211}\u{ed}".to_owned(),
            "\u{d3}\u{ba}\u{e4}".to_owned(),
            "\u{db}\u{221e}\u{e1}\u{2202}".to_owned(),
            "\u{db}\u{221e}\u{aa}\u{fc}".to_owned(),
            "\u{d4}\u{dc}\u{3c0}".to_owned(),
            "\u{d4}\u{d6}\u{ed}".to_owned(),
            "\u{db}\u{221e}\u{a3}\u{eb}".to_owned(),
            "\u{db}\u{221e}\u{a2}\u{c6}".to_owned(),
            "\u{d3}\u{ba}\u{ec}".to_owned(),
        ];
        App {
            page: Page::Auth,
            auth_mode: AuthMode::Register,
            input_boxes,
            focus: 0,
            error: None,
            error_time_ms: None,
            token: None,
            is_loading: false,
            feed: MessageFeed::new(),
            chat: ChatScreen::new(),
            should_quit: false,
            icon_index: 0,
            icons,
            current_icon: String::new(),
            input_scroll: 0,
            input_width: 0,
            cursor_tick_state: true,
            last_cursor_toggle_ms: 0,
        }
    }
}

} // verus!
