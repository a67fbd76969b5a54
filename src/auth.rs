//! The authentication form: focus, mode, icon choice, typing, and what a
//! submission asks for and what its answer does.

use vstd::prelude::*;
use crate::model::{App, AuthMode, InputBox, Page};
use crate::send::{trim_chars, trimmed};
use crate::text::{chars_of, push_char};

verus! {

/// A key press on the authentication screen.
#[derive(Clone, Copy, Debug, PartialEq, Eq)]
pub enum AuthKey {
    Tab,
    BackTab,
    Up,
    Down,
    Char(char),
    /// Control with `t`: switches between login and registration.
    CtrlT,
    Enter,
    Backspace,
    Left,
    Right,
    Other,
}

/// What the event loop must do after an authentication key.
#[derive(Clone, Debug)]
pub enum AuthAction {
    Nothing,
    Quit,
    /// Ask the server to register (or log in) with these trimmed credentials.
    Submit { register: bool, username: String, password: String, icon: String },
}

/// Relies on `String::pop`: removes and returns the last character, `None`
/// on an empty string.
#[verifier::external_body]
fn pop_char(s: &mut String) -> (r: Option<char>)
    ensures
        old(s)@.len() > 0 ==> final(s)@ == old(s)@.drop_last() && r == Some(old(s)@.last()),
        old(s)@.len() == 0 ==> final(s)@ == old(s)@ && r is None,
{
    s.pop()
}

/// Whether `pat` occurs in `s` as a run of consecutive characters.
pub open spec fn occurs_in(pat: Seq<char>, s: Seq<char>) -> bool {
    exists|i: int| 0 <= i && i + pat.len() <= s.len() && #[trigger] s.subrange(i, i + pat.len()) == pat
}

/// Relies on `str::contains` with a `&str` pattern: whether the pattern
/// occurs in the string.
#[verifier::external_body]
fn str_contains(s: &str, pat: &str) -> (r: bool)
    ensures
        r == occurs_in(pat@, s@),
{
    s.contains(pat)
}

/// Number of text fields the form shows in `mode`.
pub open spec fn field_count(mode: AuthMode) -> int {
    if mode == AuthMode::Register {
        3
    } else {
        2
    }
}

/// Index of the icon field in `mode`.
pub open spec fn icon_field(mode: AuthMode) -> int {
    if mode == AuthMode::Register {
        2
    } else {
        0
    }
}

/// The message shown for a failed submission answered with `e`.
pub open spec fn auth_error_text(e: Seq<char>) -> Seq<char> {
    if occurs_in("409"@, e) {
        "409: User already exists, use a pretty name :3"@
    } else if occurs_in("401"@, e) {
        "Incorrect password, ya forgot ? it's 1234 ofc"@
    } else {
        e
    }
}

/// The message shown for a failed submission answered with `e`.
pub fn auth_error_message(e: String) -> (r: String)
    ensures
        r@ == auth_error_text(e@),
{
    if str_contains(e.as_str(), "409") {
        "409: User already exists, use a pretty name :3".to_owned()
    } else if str_contains(e.as_str(), "401") {
        "Incorrect password, ya forgot ? it's 1234 ofc".to_owned()
    } else {
        e
    }
}

fn clear_box(b: &mut InputBox)
    ensures
        final(b).value@ == Seq::<char>::empty(),
        final(b).cursor == 0,
        final(b).label == old(b).label,
        final(b).is_password == old(b).is_password,
{
    b.value = String::new();
    b.cursor = 0;
}

impl App {
    /// The form's shape: three fields, a non-empty icon list with a valid
    /// choice, and focus on a field or the button.
    pub open spec fn auth_wf(&self) -> bool {
        &&& self.input_boxes@.len() == 3
        &&& self.icons@.len() > 0
        &&& self.icon_index < self.icons@.len()
        &&& self.focus <= 3
    }

    fn clear_credentials(&mut self)
        requires
            old(self).auth_wf(),
        ensures
            final(self).auth_wf(),
            final(self).input_boxes@[0].value@.len() == 0 && final(self).input_boxes@[0].cursor == 0,
            final(self).input_boxes@[1].value@.len() == 0 && final(self).input_boxes@[1].cursor == 0,
            final(self).input_boxes@[2] == old(self).input_boxes@[2],
            final(self).page == old(self).page && final(self).token == old(self).token,
            final(self).error == old(self).error && final(self).is_loading == old(self).is_loading,
            final(self).error_time_ms == old(self).error_time_ms,
    {
        let mut b0 = self.input_boxes.remove(0);
        clear_box(&mut b0);
        self.input_boxes.insert(0, b0);
        let mut b1 = self.input_boxes.remove(1);
        clear_box(&mut b1);
        self.input_boxes.insert(1, b1);
    }

    /// Handles one key on the authentication screen at time `now_ms`.
    pub fn handle_event(&mut self, key: AuthKey, now_ms: u64) -> (r: AuthAction)
        requires
            old(self).auth_wf(),
        ensures
            final(self).auth_wf(),
            ({
                let o = *old(self);
                let n = *final(self);
                let count = field_count(o.auth_mode);
                match key {
                    AuthKey::Tab | AuthKey::Down => n.focus == (o.focus + 1) % (count + 1)
                        && n.auth_mode == o.auth_mode && r is Nothing,
                    AuthKey::BackTab | AuthKey::Up => n.focus == (if o.focus == 0 {
                        count
                    } else {
                        o.focus - 1
                    }) && n.auth_mode == o.auth_mode && r is Nothing,
                    AuthKey::Char('L') => n.auth_mode == AuthMode::Login && n.focus == 0 && r is Nothing,
                    AuthKey::Char('R') => n.auth_mode == AuthMode::Register && n.focus == 0
                        && r is Nothing,
                    AuthKey::Char('Q') => n.should_quit && r is Quit,
                    AuthKey::CtrlT => n.auth_mode == (if o.auth_mode == AuthMode::Register {
                        AuthMode::Login
                    } else {
                        AuthMode::Register
                    }) && n.focus == 0 && r is Nothing,
                    AuthKey::Char(c) => {
                        let f = o.focus as int;
                        &&& r is Nothing
                        &&& if f < count && f != icon_field(o.auth_mode)
                            && o.input_boxes@[f].cursor < usize::MAX {
                            &&& n.input_boxes@[f].value@ == o.input_boxes@[f].value@.push(c)
                            &&& n.input_boxes@[f].cursor == o.input_boxes@[f].cursor + 1
                            &&& n.input_boxes@[f].label == o.input_boxes@[f].label
                            &&& forall|j: int|
                                0 <= j < 3 && j != f ==> n.input_boxes@[j] == o.input_boxes@[j]
                        } else {
                            n.input_boxes == o.input_boxes
                        }
                    },
                    AuthKey::Backspace => {
                        let f = o.focus as int;
                        let v = o.input_boxes@[f].value@;
                        &&& r is Nothing
                        &&& if f < count && f != icon_field(o.auth_mode) && o.input_boxes@[f].cursor > 0 {
                            &&& n.input_boxes@[f].value@ == (if v.len() > 0 {
                                v.drop_last()
                            } else {
                                v
                            })
                            &&& n.input_boxes@[f].cursor == o.input_boxes@[f].cursor - 1
                            &&& n.input_boxes@[f].label == o.input_boxes@[f].label
                            &&& forall|j: int|
                                0 <= j < 3 && j != f ==> n.input_boxes@[j] == o.input_boxes@[j]
                        } else {
                            n.input_boxes == o.input_boxes
                        }
                    },
                    AuthKey::Left => r is Nothing && if o.auth_mode == AuthMode::Register && o.focus
                        == 2 {
                        n.icon_index == (if o.icon_index == 0 {
                            o.icons@.len() - 1
                        } else {
                            o.icon_index - 1
                        }) && n.current_icon == o.icons@[n.icon_index as int]
                    } else {
                        n.icon_index == o.icon_index && n.current_icon == o.current_icon
                    },
                    AuthKey::Right => r is Nothing && if o.auth_mode == AuthMode::Register && o.focus
                        == 2 {
                        n.icon_index == (o.icon_index + 1) % (o.icons@.len() as int)
                            && n.current_icon == o.icons@[n.icon_index as int]
                    } else {
                        n.icon_index == o.icon_index && n.current_icon == o.current_icon
                    },
                    AuthKey::Enter => if o.focus == count && !o.is_loading {
                        let user = trimmed(o.input_boxes@[0].value@);
                        let pass = trimmed(o.input_boxes@[1].value@);
                        if user.len() == 0 || pass.len() == 0 {
                            r is Nothing && (n.error matches Some(m) && m@
                                == "Username and Password required"@) && n.error_time_ms == Some(now_ms)
                                && !n.is_loading && n.input_boxes@[0].value@.len() == 0
                                && n.input_boxes@[1].value@.len() == 0
                        } else {
                            n.is_loading && n.error is None && match r {
                                AuthAction::Submit { register, username, password, icon } => register
                                    == (o.auth_mode == AuthMode::Register) && username@ == user
                                    && password@ == pass && icon == o.current_icon,
                                _ => false,
                            }
                        }
                    } else {
                        r is Nothing && n.is_loading == o.is_loading && n.error == o.error
                    },
                    AuthKey::Other => r is Nothing && n.focus == o.focus,
                }
            }),
    {
        let reg_mode = self.auth_mode == AuthMode::Register;
        let input_count: usize = if reg_mode {
            3
        } else {
            2
        };
        let icon_idx: usize = if reg_mode {
            2
        } else {
            0
        };
        match key {
            AuthKey::Tab | AuthKey::Down => {
                self.focus = (self.focus + 1) % (input_count + 1);
                AuthAction::Nothing
            },
            AuthKey::BackTab | AuthKey::Up => {
                if self.focus == 0 {
                    self.focus = input_count;
                } else {
                    self.focus = self.focus - 1;
                }
                AuthAction::Nothing
            },
            AuthKey::Char('L') => {
                self.auth_mode = AuthMode::Login;
                self.focus = 0;
                AuthAction::Nothing
            },
            AuthKey::Char('R') => {
                self.auth_mode = AuthMode::Register;
                self.focus = 0;
                AuthAction::Nothing
            },
            AuthKey::Char('Q') => {
                self.should_quit = true;
                AuthAction::Quit
            },
            AuthKey::CtrlT => {
                self.auth_mode = if reg_mode {
                    AuthMode::Login
                } else {
                    AuthMode::Register
                };
                self.focus = 0;
                AuthAction::Nothing
            },
            AuthKey::Char(c) => {
                let f = self.focus;
                if f < input_count && f != icon_idx && self.input_boxes[f].cursor < usize::MAX {
                    let mut b = self.input_boxes.remove(f);
                    push_char(&mut b.value, c);
                    b.cursor = b.cursor + 1;
                    self.input_boxes.insert(f, b);
                }
                AuthAction::Nothing
            },
            AuthKey::Backspace => {
                let f = self.focus;
                if f < input_count && f != icon_idx && self.input_boxes[f].cursor > 0 {
                    let mut b = self.input_boxes.remove(f);
                    pop_char(&mut b.value);
                    b.cursor = b.cursor - 1;
                    self.input_boxes.insert(f, b);
                }
                AuthAction::Nothing
            },
            AuthKey::Left => {
                if reg_mode && self.focus == icon_idx {
                    if self.icon_index == 0 {
                        self.icon_index = self.icons.len() - 1;
                    } else {
                        self.icon_index = self.icon_index - 1;
                    }
                    self.current_icon = self.icons[self.icon_index].clone();
                }
                AuthAction::Nothing
            },
            AuthKey::Right => {
                if reg_mode && self.focus == icon_idx {
                    let len = self.icons.len();
                    self.icon_index = (self.icon_index + 1) % len;
                    self.current_icon = self.icons[self.icon_index].clone();
                }
                AuthAction::Nothing
            },
            AuthKey::Enter => {
                if self.focus == input_count && !self.is_loading {
                    let username = trim_chars(&chars_of(self.input_boxes[0].value.as_str()));
                    let password = trim_chars(&chars_of(self.input_boxes[1].value.as_str()));
                    if username.as_str().is_empty() || password.as_str().is_empty() {
                        self.error = Some("Username and Password required".to_owned());
                        self.error_time_ms = Some(now_ms);
                        self.clear_credentials();
                        self.is_loading = false;
                        return AuthAction::Nothing;
                    }
                    self.is_loading = true;
                    self.error = None;
                    AuthAction::Submit {
                        register: reg_mode,
                        username,
                        password,
                        icon: self.current_icon.clone(),
                    }
                } else {
                    AuthAction::Nothing
                }
            },
            AuthKey::Other => AuthAction::Nothing,
        }
    }

    /// Applies the server's answer to a submission made at `now_ms`: a token
    /// opens the home screen; an error is shown and the credentials cleared.
    pub fn finish_auth(&mut self, outcome: Result<String, String>, now_ms: u64)
        requires
            old(self).auth_wf(),
        ensures
            final(self).auth_wf(),
            !final(self).is_loading,
            match outcome {
                Ok(t) => final(self).token == Some(t) && final(self).page == Page::Home,
                Err(e) => final(self).error matches Some(m) && m@ == auth_error_text(e@)
                    && final(self).error_time_ms == Some(now_ms) && final(self).page == old(self).page
                    && final(self).input_boxes@[0].value@.len() == 0
                    && final(self).input_boxes@[1].value@.len() == 0,
            },
    {
        match outcome {
            Ok(token) => {
                self.token = Some(token);
                self.page = Page::Home;
            },
            Err(e) => {
                self.error = Some(auth_error_message(e));
                self.error_time_ms = Some(now_ms);
                self.clear_credentials();
            },
        }
        self.is_loading = false;
    }
}

} // verus!
