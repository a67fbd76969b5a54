//! The chat screen: routes keys to the editor, the scroll state and the
//! send throttle.

use vstd::prelude::*;
use crate::editor::{edit_step, EditOp, InputEditor, MAX_CHARS};
use crate::scroll::ScrollState;
use crate::send::{send_accepted, trimmed, SendThrottle};

verus! {

/// A key press on the chat screen.
#[derive(Clone, Copy, Debug, PartialEq, Eq)]
pub enum ChatKey {
    Char(char),
    Backspace,
    Delete,
    Left,
    Right,
    Home,
    End,
    /// Sends the message.
    Enter,
    /// Enter with Shift: a newline in the message.
    ShiftEnter,
    /// Control with Up: scrolls the chat up.
    ScrollUp,
    /// Control with Down: scrolls the chat down.
    ScrollDown,
    Up,
    Down,
    Other,
}

/// The edit a key makes to the input buffer, for the keys that edit it.
pub open spec fn key_edit(key: ChatKey, width: usize) -> Option<EditOp> {
    match key {
        ChatKey::Char(c) => Some(EditOp::Insert(c)),
        ChatKey::ShiftEnter => Some(EditOp::Newline),
        ChatKey::Backspace => Some(EditOp::Backspace),
        ChatKey::Delete => Some(EditOp::Delete),
        ChatKey::Left => Some(EditOp::Left),
        ChatKey::Right => Some(EditOp::Right),
        ChatKey::Home => Some(EditOp::Home(width)),
        ChatKey::End => Some(EditOp::End(width)),
        ChatKey::Up => Some(EditOp::Up(width)),
        ChatKey::Down => Some(EditOp::Down(width)),
        _ => None,
    }
}

/// The chat screen's own state, owned by the event loop.
pub struct ChatScreen {
    pub editor: InputEditor,
    pub scroll: ScrollState,
    pub throttle: SendThrottle,
}

impl ChatScreen {
    pub open spec fn wf(&self) -> bool {
        self.editor.wf() && self.scroll.wf()
    }

    /// Empty input, pinned scroll, nothing sent.
    pub fn new() -> (r: Self)
        ensures
            r.wf(),
            r.editor.text() == Seq::<char>::empty(),
            r.editor.pos() == 0,
            r.scroll == (ScrollState { scroll_offset: 0, max_scroll: 0, auto_scroll: true }),
            r.throttle.last_sent is None,
    {
        ChatScreen {
            editor: InputEditor::new(),
            scroll: ScrollState::new(),
            throttle: SendThrottle::new(),
        }
    }

    /// Handles one key, with the input box `input_width` columns wide, at
    /// time `now_ms`; returns the message to send, if the key sent one.
    /// A character that would overflow a full buffer is dropped.
    pub fn handle_event(&mut self, key: ChatKey, input_width: usize, now_ms: u64) -> (r: Option<
        String,
    >)
        requires
            old(self).wf(),
        ensures
            final(self).wf(),
            ({
                let o = *old(self);
                let n = *final(self);
                &&& key != ChatKey::Enter ==> r is None && n.throttle == o.throttle
                &&& key != ChatKey::ScrollUp && key != ChatKey::ScrollDown ==> n.scroll == o.scroll
                &&& key_edit(key, input_width) matches Some(op) ==> (n.editor.text(), n.editor.pos())
                    == edit_step(o.editor.text(), o.editor.pos(), op)
                &&& key is ScrollUp || key is ScrollDown || key is Other ==> n.editor == o.editor
                &&& key is Enter ==> if send_accepted(o.throttle.last_sent, o.editor.text(), now_ms) {
                    &&& r is Some && r->0@ == trimmed(o.editor.text())
                    &&& n.editor.text() == Seq::<char>::empty() && n.editor.pos() == 0
                    &&& n.throttle.last_sent == Some(now_ms)
                } else {
                    r is None && n.editor == o.editor && n.throttle == o.throttle
                }
                &&& key is ScrollUp ==> n.scroll.max_scroll == o.scroll.max_scroll && if o.scroll.scroll_offset
                    > 0 {
                    n.scroll.scroll_offset == o.scroll.scroll_offset - 1 && !n.scroll.auto_scroll
                } else {
                    n.scroll == o.scroll
                }
                &&& key is ScrollDown ==> {
                    &&& n.scroll.max_scroll == o.scroll.max_scroll
                    &&& n.scroll.scroll_offset == if o.scroll.scroll_offset < o.scroll.max_scroll {
                        o.scroll.scroll_offset + 1
                    } else {
                        o.scroll.scroll_offset as int
                    }
                    &&& n.scroll.auto_scroll == (n.scroll.scroll_offset >= n.scroll.max_scroll)
                }
            }),
    {
        match key {
            ChatKey::Char(c) => {
                if self.editor.char_count() < MAX_CHARS {
                    self.editor.insert_char(c);
                }
                None
            },
            ChatKey::ShiftEnter => {
                if self.editor.char_count() < MAX_CHARS {
                    self.editor.insert_newline();
                }
                None
            },
            ChatKey::Backspace => {
                self.editor.delete_backward();
                None
            },
            ChatKey::Delete => {
                self.editor.delete_forward();
                None
            },
            ChatKey::Left => {
                self.editor.move_left();
                None
            },
            ChatKey::Right => {
                self.editor.move_right();
                None
            },
            ChatKey::Home => {
                self.editor.move_home(input_width);
                None
            },
            ChatKey::End => {
                self.editor.move_end(input_width);
                None
            },
            ChatKey::Up => {
                self.editor.move_up(input_width);
                None
            },
            ChatKey::Down => {
                self.editor.move_down(input_width);
                None
            },
            ChatKey::Enter => self.throttle.try_send(&mut self.editor, now_ms),
            ChatKey::ScrollUp => {
                self.scroll.scroll_up();
                None
            },
            ChatKey::ScrollDown => {
                self.scroll.scroll_down();
                None
            },
            ChatKey::Other => None,
        }
    }
}

} // verus!
