//! The chat pane's lines: a header where the sender changes, then the
//! message's wrapped body lines.

use vstd::prelude::*;
use crate::model::ChatMessage;
use crate::text::{prefixed_lines, strings_view, wrap_with_prefixes};

verus! {

/// One line of the chat pane.
#[derive(Clone, Debug, PartialEq, Eq)]
pub enum ChatLine {
    /// The header of the message at this index: icon, sender, time.
    Header(usize),
    /// A body line, prefix included.
    Body(String),
}

impl ChatLine {
    /// A header as its message index with no text; a body as -1 with its text.
    pub open spec fn view(&self) -> (int, Seq<char>) {
        match self {
            ChatLine::Header(i) => (*i as int, Seq::empty()),
            ChatLine::Body(s) => (-1, s@),
        }
    }
}

pub open spec fn chat_lines_view(v: Seq<ChatLine>) -> Seq<(int, Seq<char>)> {
    v.map_values(|l: ChatLine| l@)
}

/// Whether message `i` starts with a header: it is the first, or its sender
/// differs from the previous message's.
pub open spec fn starts_group(msgs: Seq<ChatMessage>, i: int) -> bool {
    i == 0 || msgs[i - 1].user@ != msgs[i].user@
}

/// The lines of message `i` in a pane of `width` columns.
pub open spec fn lines_of_message(msgs: Seq<ChatMessage>, i: int, width: nat) -> Seq<(int, Seq<char>)> {
    let head: Seq<(int, Seq<char>)> = if starts_group(msgs, i) {
        seq![(i, Seq::empty())]
    } else {
        Seq::empty()
    };
    head + prefixed_lines(msgs[i].content@, width, "\u{2502} "@).map_values(
        |l: Seq<char>| (-1int, l),
    )
}

/// The lines of all of `msgs`, in order.
pub open spec fn lines_of_messages(msgs: Seq<ChatMessage>, width: nat) -> Seq<(int, Seq<char>)>
    decreases msgs.len(),
{
    if msgs.len() == 0 {
        Seq::empty()
    } else {
        lines_of_messages(msgs.drop_last(), width) + lines_of_message(msgs, msgs.len() - 1, width)
    }
}

proof fn lemma_lines_prefix(msgs: Seq<ChatMessage>, k: int, width: nat)
    requires
        0 <= k < msgs.len(),
    ensures
        lines_of_messages(msgs.take(k + 1), width) == lines_of_messages(msgs.take(k), width)
            + lines_of_message(msgs, k, width),
{
    let p = msgs.take(k + 1);
    assert(p.drop_last() =~= msgs.take(k));
    assert(p[k] == msgs[k]);
    if k > 0 {
        assert(p[k - 1] == msgs[k - 1]);
    }
    assert(lines_of_message(p, k, width) == lines_of_message(msgs, k, width));
}

/// The chat pane's lines for `msgs` at `width` columns.
pub fn chat_lines(msgs: &Vec<ChatMessage>, width: usize) -> (r: Vec<ChatLine>)
    ensures
        chat_lines_view(r@) == lines_of_messages(msgs@, width as nat),
{
    let mut out: Vec<ChatLine> = Vec::new();
    let mut k: usize = 0;
    proof {
        assert(msgs@.take(0) =~= Seq::<ChatMessage>::empty());
        assert(chat_lines_view(out@) =~= Seq::<(int, Seq<char>)>::empty());
    }
    while k < msgs.len()
        invariant
            k <= msgs@.len(),
            chat_lines_view(out@) == lines_of_messages(msgs@.take(k as int), width as nat),
        decreases msgs@.len() - k,
    {
        let ghost before = chat_lines_view(out@);
        let m = &msgs[k];
        let header = k == 0 || !same_text(&msgs[k - 1].user, &m.user);
        if header {
            out.push(ChatLine::Header(k));
        }
        let ghost mid = chat_lines_view(out@);
        proof {
            let head: Seq<(int, Seq<char>)> = if starts_group(msgs@, k as int) {
                seq![(k as int, Seq::empty())]
            } else {
                Seq::empty()
            };
            assert(mid =~= before + head);
        }
        let body = wrap_with_prefixes(m.content.as_str(), width, "\u{2502} ");
        let ghost bl = prefixed_lines(msgs@[k as int].content@, width as nat, "\u{2502} "@);
        let mut j: usize = 0;
        while j < body.len()
            invariant
                j <= body@.len(),
                strings_view(body@) == bl,
                chat_lines_view(out@) == mid + bl.take(j as int).map_values(|l: Seq<char>| (-1int, l)),
            decreases body@.len() - j,
        {
            let ghost prev = chat_lines_view(out@);
            assert(strings_view(body@)[j as int] == body@[j as int]@);
            let line = body[j].clone();
            assert(line@ == bl[j as int]);
            out.push(ChatLine::Body(line));
            proof {
                assert(chat_lines_view(out@)[out@.len() - 1] == (-1int, bl[j as int]));
                assert(chat_lines_view(out@) =~= prev.push((-1int, bl[j as int])));
                let f = |l: Seq<char>| (-1int, l);
                assert(bl.take(j + 1).map_values(f) =~= bl.take(j as int).map_values(f).push(
                    (-1int, bl[j as int]),
                ));
                assert(mid + bl.take(j + 1).map_values(f) =~= (mid + bl.take(j as int).map_values(
                    f,
                )).push((-1int, bl[j as int])));
                assert(chat_lines_view(out@) =~= mid + bl.take(j + 1).map_values(
                    |l: Seq<char>| (-1int, l),
                ));
            }
            j = j + 1;
        }
        proof {
            assert(bl.take(j as int) =~= bl);
            lemma_lines_prefix(msgs@, k as int, width as nat);
            assert(chat_lines_view(out@) =~= lines_of_messages(msgs@.take(k + 1), width as nat));
        }
        k = k + 1;
    }
    proof {
        assert(msgs@.take(k as int) =~= msgs@);
    }
    out
}

/// Whether two strings hold the same characters.
pub fn same_text(a: &String, b: &String) -> (r: bool)
    ensures
        r == (a@ == b@),
{
    a.eq(b)
}

/// Most text lines the input box grows to.
pub const MAX_INPUT_LINES: usize = 6;

/// Height of the input box, borders included, for `line_count` lines of
/// input: at least one line, at most `MAX_INPUT_LINES`.
pub fn input_box_height(line_count: usize) -> (r: u16)
    ensures
        r == (if line_count < 1 {
            1
        } else if line_count > MAX_INPUT_LINES {
            MAX_INPUT_LINES
        } else {
            line_count
        }) + 2,
{
    let n: usize = if line_count < 1 {
        1
    } else if line_count > MAX_INPUT_LINES {
        MAX_INPUT_LINES
    } else {
        line_count
    };
    n as u16 + 2
}

/// The lines `start..end` that a viewport of `viewport` lines shows when
/// scrolled `offset` lines into `total` lines.
pub fn visible_range(total: usize, offset: usize, viewport: usize) -> (r: (usize, usize))
    ensures
        r.0 == if offset < total {
            offset
        } else {
            total
        },
        r.1 == if r.0 + viewport < total {
            r.0 + viewport
        } else {
            total as int
        },
{
    let start = if offset < total {
        offset
    } else {
        total
    };
    let end = if viewport < total - start {
        start + viewport
    } else {
        total
    };
    (start, end)
}

/// The first input line shown in a box of `rows` lines (at least one), so
/// that line `cursor_line` is the last one shown or earlier.
pub fn first_visible_row(cursor_line: usize, rows: usize) -> (r: usize)
    requires
        rows >= 1,
    ensures
        r == if cursor_line + 1 > rows {
            cursor_line + 1 - rows
        } else {
            0
        },
{
    if cursor_line >= rows {
        cursor_line - rows + 1
    } else {
        0
    }
}

} // verus!
