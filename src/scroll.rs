//! The chat pane's scroll position: pinned to the newest lines, or left
//! where the user put it.

use vstd::prelude::*;

verus! {

/// Blank lines kept under the last message.
pub const PADDING_LINES: usize = 2;

/// Furthest the chat pane can scroll: all lines, padding included, less the
/// lines the viewport shows, and never below 0.
pub open spec fn max_scroll_for(message_lines: nat, viewport: nat) -> nat {
    if message_lines + PADDING_LINES > viewport {
        (message_lines + PADDING_LINES - viewport) as nat
    } else {
        0
    }
}

/// Scroll offset, its current bound, and whether the view follows new lines.
#[derive(Clone, Copy, Debug, PartialEq, Eq)]
pub struct ScrollState {
    pub scroll_offset: usize,
    pub max_scroll: usize,
    pub auto_scroll: bool,
}

/// `n`, or `usize::MAX` where `n` is larger.
pub open spec fn capped(n: nat) -> nat {
    if n > usize::MAX {
        usize::MAX as nat
    } else {
        n
    }
}

/// How far the pane can scroll with `message_lines` lines of messages and a
/// viewport of `viewport` lines (at most `usize::MAX`).
pub fn compute_max_scroll(message_lines: usize, viewport: usize) -> (r: usize)
    ensures
        r == capped(max_scroll_for(message_lines as nat, viewport as nat)),
{
    let total: u128 = message_lines as u128 + PADDING_LINES as u128;
    let m: u128 = if total > viewport as u128 {
        total - viewport as u128
    } else {
        0
    };
    if m > usize::MAX as u128 {
        usize::MAX
    } else {
        m as usize
    }
}

impl ScrollState {
    pub open spec fn wf(&self) -> bool {
        self.scroll_offset <= self.max_scroll
    }

    /// At the top, pinned, with nothing to scroll.
    pub fn new() -> (r: Self)
        ensures
            r.wf(),
            r == (ScrollState { scroll_offset: 0, max_scroll: 0, auto_scroll: true }),
    {
        ScrollState { scroll_offset: 0, max_scroll: 0, auto_scroll: true }
    }

    /// Recomputes the bound for the lines about to be drawn: a pinned view
    /// moves to the bound, a free one stays but not past it.
    pub fn redraw(&mut self, message_lines: usize, viewport: usize)
        ensures
            final(self).wf(),
            final(self).max_scroll == capped(max_scroll_for(message_lines as nat, viewport as nat)),
            final(self).auto_scroll == old(self).auto_scroll,
            old(self).auto_scroll ==> final(self).scroll_offset == final(self).max_scroll,
            !old(self).auto_scroll ==> final(self).scroll_offset == if old(self).scroll_offset
                <= final(self).max_scroll {
                old(self).scroll_offset
            } else {
                final(self).max_scroll
            },
    {
        let m = compute_max_scroll(message_lines, viewport);
        self.max_scroll = m;
        if self.auto_scroll || self.scroll_offset > m {
            self.scroll_offset = m;
        }
    }

    /// One line up; this leaves the pinned mode. Nothing at the top.
    pub fn scroll_up(&mut self)
        requires
            old(self).wf(),
        ensures
            final(self).wf(),
            final(self).max_scroll == old(self).max_scroll,
            old(self).scroll_offset > 0 ==> final(self).scroll_offset == old(self).scroll_offset - 1
                && !final(self).auto_scroll,
            old(self).scroll_offset == 0 ==> *final(self) == *old(self),
    {
        if self.scroll_offset > 0 {
            self.scroll_offset = self.scroll_offset - 1;
            self.auto_scroll = false;
        }
    }

    /// One line down, not past the bound; reaching the bound pins the view.
    pub fn scroll_down(&mut self)
        requires
            old(self).wf(),
        ensures
            final(self).wf(),
            final(self).max_scroll == old(self).max_scroll,
            final(self).scroll_offset as int == if old(self).scroll_offset < old(self).max_scroll {
                old(self).scroll_offset + 1
            } else {
                old(self).scroll_offset as int
            },
            final(self).auto_scroll == (final(self).scroll_offset >= final(self).max_scroll),
    {
        if self.scroll_offset < self.max_scroll {
            self.scroll_offset = self.scroll_offset + 1;
            self.auto_scroll = false;
        }
        if self.scroll_offset >= self.max_scroll {
            self.auto_scroll = true;
        }
    }
}

} // verus!
