//! The input editor: a text buffer with a cursor kept on character
//! boundaries, moved by characters and by display lines.

use vstd::prelude::*;
use crate::text::{
    lemma_byte_len_take,
    string_of,
    byte_len, char_byte_len, char_width, cols, lemma_byte_len_push, lemma_wrap_tiles, seq_width,
    spans_tile, spans_view, split_spans, utf8_len, wrap_spans, LineSpan,
};

verus! {

/// Where `b` falls between two characters of `s` (or at either end).
pub open spec fn is_boundary(s: Seq<char>, b: int) -> bool {
    exists|k: int| 0 <= k <= s.len() && #[trigger] byte_len(s.take(k)) == b
}

/// Index of the first span holding `pos` from span `j` on; the last span if
/// none does.
pub open spec fn line_from(spans: Seq<(int, int, bool)>, pos: int, j: int) -> int
    decreases spans.len() - j,
{
    if j < 0 || j >= spans.len() {
        spans.len() - 1
    } else if spans[j].0 <= pos <= spans[j].1 {
        j
    } else {
        line_from(spans, pos, j + 1)
    }
}

/// The display line of the character position `pos` in `s` at `width`.
pub open spec fn line_at(s: Seq<char>, width: nat, pos: int) -> int {
    line_from(wrap_spans(s, width), pos, 0)
}

/// Display column of `pos` on its line.
pub open spec fn col_at(s: Seq<char>, width: nat, pos: int) -> nat {
    seq_width(s.subrange(wrap_spans(s, width)[line_at(s, width, pos)].0, pos))
}

/// How many leading characters of `line` fit in `col` columns.
pub open spec fn fit_count(line: Seq<char>, col: nat) -> nat
    decreases line.len(),
{
    if line.len() == 0 || cols(line[0]) > col {
        0
    } else {
        1 + fit_count(line.drop_first(), (col - cols(line[0])) as nat)
    }
}

/// The position on display line `l` that is closest to column `col`
/// without passing it.
pub open spec fn pos_on_line(s: Seq<char>, width: nat, l: int, col: nat) -> int {
    let sp = wrap_spans(s, width)[l];
    sp.0 + fit_count(s.subrange(sp.0, sp.1), col)
}

proof fn lemma_byte_len_bound(s: Seq<char>)
    ensures
        byte_len(s) <= 4 * s.len(),
    decreases s.len(),
{
    if s.len() > 0 {
        lemma_byte_len_bound(s.drop_last());
        lemma_byte_len_push(s.drop_last(), s.last());
        assert(s.drop_last().push(s.last()) =~= s);
    } else {
        assert(byte_len(s) == 0);
    }
}

/// Most characters a buffer may hold: four bytes each must fit a `usize`.
pub const MAX_CHARS: usize = usize::MAX / 4;

/// UTF-8 length of the first `k` characters of `v`.
fn prefix_bytes(v: &Vec<char>, k: usize) -> (r: usize)
    requires
        k <= v@.len() <= MAX_CHARS,
    ensures
        r == byte_len(v@.take(k as int)),
{
    let mut acc: usize = 0;
    let mut i: usize = 0;
    proof {
        assert(byte_len(v@.take(0)) == 0);
    }
    while i < k
        invariant
            i <= k <= v@.len() <= MAX_CHARS,
            acc == byte_len(v@.take(i as int)),
            acc <= 4 * i,
        decreases k - i,
    {
        let l = char_byte_len(v[i]);
        proof {
            lemma_byte_len_push(v@.take(i as int), v@[i as int]);
            assert(v@.take(i as int).push(v@[i as int]) =~= v@.take(i + 1));
        }
        acc = acc + l;
        i = i + 1;
    }
    acc
}

/// Display width of the characters `from..to` of `v`, character by character.
fn width_between(v: &Vec<char>, from: usize, to: usize) -> (r: usize)
    requires
        from <= to <= v@.len() <= MAX_CHARS,
    ensures
        r == seq_width(v@.subrange(from as int, to as int)),
{
    let mut acc: usize = 0;
    let mut i: usize = from;
    proof {
        assert(v@.subrange(from as int, from as int).len() == 0);
    }
    while i < to
        invariant
            from <= i <= to <= v@.len() <= MAX_CHARS,
            acc == seq_width(v@.subrange(from as int, i as int)),
            acc <= 3 * (i - from),
        decreases to - i,
    {
        let w = char_width(v[i]);
        proof {
            assert(v@.subrange(from as int, i + 1).drop_last() =~= v@.subrange(from as int, i as int));
        }
        acc = acc + w;
        i = i + 1;
    }
    acc
}

/// How many leading characters of `v[from..to]` fit in `col` columns.
fn fit_between(v: &Vec<char>, from: usize, to: usize, col: usize) -> (r: usize)
    requires
        from <= to <= v@.len(),
    ensures
        r == fit_count(v@.subrange(from as int, to as int), col as nat),
        r <= to - from,
{
    let mut left: usize = col;
    let mut i: usize = from;
    while i < to
        invariant
            from <= i <= to <= v@.len(),
            left <= col,
            fit_count(v@.subrange(from as int, to as int), col as nat) == (i - from) + fit_count(
                v@.subrange(i as int, to as int),
                left as nat,
            ),
        decreases to - i,
    {
        let w = char_width(v[i]);
        proof {
            let t = v@.subrange(i as int, to as int);
            assert(t[0] == v@[i as int]);
            assert(t.drop_first() =~= v@.subrange(i + 1, to as int));
        }
        if w > left {
            return i - from;
        }
        left = left - w;
        i = i + 1;
    }
    i - from
}

/// The line found for a position inside the text holds that position.
proof fn lemma_line_from(s: Seq<char>, spans: Seq<(int, int, bool)>, pos: int, j: int)
    requires
        spans_tile(s, spans, s.len() as int),
        spans.len() >= 1,
        spans.last().1 == s.len(),
        0 <= j < spans.len(),
        spans[j].0 <= pos <= s.len(),
    ensures
        j <= line_from(spans, pos, j) < spans.len(),
        spans[line_from(spans, pos, j)].0 <= pos <= spans[line_from(spans, pos, j)].1,
    decreases spans.len() - j,
{
    if !(spans[j].0 <= pos <= spans[j].1) {
        assert(j < spans.len() - 1);
        assert(spans[j + 1].0 <= spans[j].1 + 1);
        lemma_line_from(s, spans, pos, j + 1);
    }
}

/// One editing operation; the moves by display line carry the width.
#[derive(Clone, Copy, Debug, PartialEq, Eq)]
pub enum EditOp {
    Insert(char),
    Newline,
    Backspace,
    Delete,
    Left,
    Right,
    Home(usize),
    End(usize),
    Up(usize),
    Down(usize),
    Clear,
}

/// Buffer and cursor position after `op` on buffer `s` with the cursor at
/// character `p`; an insertion into a full buffer changes nothing.
pub open spec fn edit_step(s: Seq<char>, p: int, op: EditOp) -> (Seq<char>, int) {
    match op {
        EditOp::Insert(c) => if s.len() < MAX_CHARS {
            (s.insert(p, c), p + 1)
        } else {
            (s, p)
        },
        EditOp::Newline => if s.len() < MAX_CHARS {
            (s.insert(p, '\n'), p + 1)
        } else {
            (s, p)
        },
        EditOp::Backspace => if p > 0 {
            (s.remove(p - 1), p - 1)
        } else {
            (s, p)
        },
        EditOp::Delete => if p < s.len() {
            (s.remove(p), p)
        } else {
            (s, p)
        },
        EditOp::Left => (s, if p > 0 {
            p - 1
        } else {
            p
        }),
        EditOp::Right => (s, if p < s.len() {
            p + 1
        } else {
            p
        }),
        EditOp::Home(w) => (s, wrap_spans(s, w as nat)[line_at(s, w as nat, p)].0),
        EditOp::End(w) => (s, wrap_spans(s, w as nat)[line_at(s, w as nat, p)].1),
        EditOp::Up(w) => {
            let l = line_at(s, w as nat, p);
            (s, if l > 0 {
                pos_on_line(s, w as nat, l - 1, col_at(s, w as nat, p))
            } else {
                p
            })
        },
        EditOp::Down(w) => {
            let l = line_at(s, w as nat, p);
            (s, if l + 1 < wrap_spans(s, w as nat).len() {
                pos_on_line(s, w as nat, l + 1, col_at(s, w as nat, p))
            } else {
                p
            })
        },
        EditOp::Clear => (Seq::empty(), 0),
    }
}

/// Buffer and cursor after `ops`, in order, from an empty buffer.
pub open spec fn edit_run(ops: Seq<EditOp>) -> (Seq<char>, int)
    decreases ops.len(),
{
    if ops.len() == 0 {
        (Seq::empty(), 0)
    } else {
        let prev = edit_run(ops.drop_last());
        edit_step(prev.0, prev.1, ops.last())
    }
}

proof fn lemma_fit_count_bound(line: Seq<char>, col: nat)
    ensures
        fit_count(line, col) <= line.len(),
    decreases line.len(),
{
    if line.len() > 0 && cols(line[0]) <= col {
        lemma_fit_count_bound(line.drop_first(), (col - cols(line[0])) as nat);
    }
}

proof fn lemma_step_in_bounds(s: Seq<char>, p: int, op: EditOp)
    requires
        0 <= p <= s.len() <= MAX_CHARS,
    ensures
        0 <= edit_step(s, p, op).1 <= edit_step(s, p, op).0.len() <= MAX_CHARS,
{
    match op {
        EditOp::Home(w) | EditOp::End(w) | EditOp::Up(w) | EditOp::Down(w) => {
            let sp = wrap_spans(s, w as nat);
            lemma_wrap_tiles(s, w as nat);
            lemma_line_from(s, sp, p, 0);
            let l = line_at(s, w as nat, p);
            assert(0 <= sp[l].0 <= sp[l].1 <= s.len());
            if l > 0 {
                assert(0 <= sp[l - 1].0 <= sp[l - 1].1 <= s.len());
                lemma_fit_count_bound(s.subrange(sp[l - 1].0, sp[l - 1].1), col_at(s, w as nat, p));
            }
            if l + 1 < sp.len() {
                assert(0 <= sp[l + 1].0 <= sp[l + 1].1 <= s.len());
                lemma_fit_count_bound(s.subrange(sp[l + 1].0, sp[l + 1].1), col_at(s, w as nat, p));
            }
        },
        _ => {},
    }
}

/// Whatever operations are applied, in whatever order, starting from an
/// empty buffer, the cursor stays within the buffer, so its byte offset (the
/// UTF-8 length of the characters before it) is a character boundary
/// between 0 and the buffer's byte length.
pub proof fn lemma_edits_keep_cursor_on_boundary(ops: Seq<EditOp>)
    ensures
        0 <= edit_run(ops).1 <= edit_run(ops).0.len() <= MAX_CHARS,
        is_boundary(edit_run(ops).0, byte_len(edit_run(ops).0.take(edit_run(ops).1)) as int),
        byte_len(edit_run(ops).0.take(edit_run(ops).1)) <= byte_len(edit_run(ops).0),
    decreases ops.len(),
{
    if ops.len() > 0 {
        lemma_edits_keep_cursor_on_boundary(ops.drop_last());
        let prev = edit_run(ops.drop_last());
        lemma_step_in_bounds(prev.0, prev.1, ops.last());
    }
    let r = edit_run(ops);
    lemma_byte_len_take(r.0, r.1);
}

/// The composed, not yet sent message and its cursor.
pub struct InputEditor {
    chars: Vec<char>,
    pos: usize,
    cursor: usize,
}

impl InputEditor {
    /// The buffer's characters.
    pub closed spec fn text(&self) -> Seq<char> {
        self.chars@
    }

    /// The cursor as a character index.
    pub closed spec fn pos(&self) -> int {
        self.pos as int
    }

    /// The cursor as a byte offset.
    pub closed spec fn cursor_spec(&self) -> int {
        self.cursor as int
    }

    /// The cursor lies within the buffer, its byte offset is the UTF-8 length
    /// of the characters before it, and the buffer's UTF-8 length fits a `usize`.
    pub open spec fn wf(&self) -> bool {
        &&& 0 <= self.pos() <= self.text().len()
        &&& self.cursor_spec() == byte_len(self.text().take(self.pos()))
        &&& self.text().len() <= MAX_CHARS
    }

    /// An empty buffer with the cursor at 0.
    pub fn new() -> (r: Self)
        ensures
            r.wf(),
            r.text() == Seq::<char>::empty(),
            r.pos() == 0,
    {
        let r = InputEditor { chars: Vec::new(), pos: 0, cursor: 0 };
        proof {
            assert(r.chars@.take(0) =~= Seq::<char>::empty());
            assert(byte_len(Seq::<char>::empty()) == 0);
        }
        r
    }

    /// The cursor's byte offset.
    pub fn cursor(&self) -> (r: usize)
        ensures
            r == self.cursor_spec(),
    {
        self.cursor
    }

    /// Number of characters in the buffer.
    pub fn char_count(&self) -> (r: usize)
        ensures
            r == self.text().len(),
    {
        self.chars.len()
    }

    /// The buffer as a string.
    pub fn value(&self) -> (r: String)
        ensures
            r@ == self.text(),
    {
        string_of(&self.chars, 0, self.chars.len())
    }

    /// The buffer's characters.
    pub fn chars(&self) -> (r: &Vec<char>)
        ensures
            r@ == self.text(),
    {
        &self.chars
    }

    proof fn lemma_wf_bounds(&self)
        requires
            self.wf(),
        ensures
            byte_len(self.text()) <= usize::MAX,
            self.cursor_spec() <= byte_len(self.text()),
    {
        lemma_byte_len_bound(self.text());
        lemma_byte_len_take(self.text(), self.pos());
    }

    /// Inserts `c` at the cursor and moves the cursor past it.
    pub fn insert_char(&mut self, c: char)
        requires
            old(self).wf(),
            old(self).text().len() < MAX_CHARS,
        ensures
            (final(self).text(), final(self).pos()) == edit_step(
                old(self).text(),
                old(self).pos(),
                EditOp::Insert(c),
            ),
            final(self).wf(),
            final(self).text() == old(self).text().insert(old(self).pos(), c),
            final(self).pos() == old(self).pos() + 1,
            final(self).cursor_spec() == old(self).cursor_spec() + utf8_len(c),
    {
        proof {
            self.lemma_wf_bounds();
            lemma_byte_len_push(self.chars@.take(self.pos as int), c);
        }
        let l = char_byte_len(c);
        let ghost old_text = self.chars@;
        self.chars.insert(self.pos, c);
        proof {
            assert(self.chars@.take(self.pos + 1) =~= old_text.take(self.pos as int).push(c));
            lemma_byte_len_take(self.chars@, self.pos + 1);
            lemma_byte_len_bound(self.chars@);
        }
        self.pos = self.pos + 1;
        self.cursor = self.cursor + l;
    }

    /// Inserts a newline at the cursor.
    pub fn insert_newline(&mut self)
        requires
            old(self).wf(),
            old(self).text().len() < MAX_CHARS,
        ensures
            (final(self).text(), final(self).pos()) == edit_step(
                old(self).text(),
                old(self).pos(),
                EditOp::Newline,
            ),
            final(self).wf(),
            final(self).text() == old(self).text().insert(old(self).pos(), '\n'),
            final(self).pos() == old(self).pos() + 1,
    {
        self.insert_char('\n');
    }

    /// Removes the character before the cursor; nothing at the start.
    pub fn delete_backward(&mut self)
        requires
            old(self).wf(),
        ensures
            (final(self).text(), final(self).pos()) == edit_step(
                old(self).text(),
                old(self).pos(),
                EditOp::Backspace,
            ),
            final(self).wf(),
            old(self).pos() > 0 ==> final(self).text() == old(self).text().remove(old(self).pos() - 1)
                && final(self).pos() == old(self).pos() - 1,
            old(self).pos() == 0 ==> final(self).text() == old(self).text() && final(self).pos() == 0,
    {
        if self.pos > 0 {
            let ghost old_text = self.chars@;
            let c = self.chars.remove(self.pos - 1);
            let l = char_byte_len(c);
            proof {
                lemma_byte_len_push(old_text.take(self.pos - 1), c);
                assert(old_text.take(self.pos - 1).push(c) =~= old_text.take(self.pos as int));
                assert(self.chars@.take(self.pos - 1) =~= old_text.take(self.pos - 1));
            }
            self.pos = self.pos - 1;
            self.cursor = self.cursor - l;
        }
    }

    /// Removes the character at the cursor; nothing at the end.
    pub fn delete_forward(&mut self)
        requires
            old(self).wf(),
        ensures
            (final(self).text(), final(self).pos()) == edit_step(
                old(self).text(),
                old(self).pos(),
                EditOp::Delete,
            ),
            final(self).wf(),
            old(self).pos() < old(self).text().len() ==> final(self).text() == old(self).text().remove(
                old(self).pos(),
            ),
            old(self).pos() == old(self).text().len() ==> final(self).text() == old(self).text(),
            final(self).pos() == old(self).pos(),
    {
        if self.pos < self.chars.len() {
            let ghost old_text = self.chars@;
            self.chars.remove(self.pos);
            proof {
                assert(self.chars@.take(self.pos as int) =~= old_text.take(self.pos as int));
            }
        }
    }

    /// Moves the cursor one character left; nothing at the start.
    pub fn move_left(&mut self)
        requires
            old(self).wf(),
        ensures
            (final(self).text(), final(self).pos()) == edit_step(
                old(self).text(),
                old(self).pos(),
                EditOp::Left,
            ),
            final(self).wf(),
            final(self).text() == old(self).text(),
            final(self).pos() == if old(self).pos() > 0 {
                old(self).pos() - 1
            } else {
                0
            },
    {
        if self.pos > 0 {
            let l = char_byte_len(self.chars[self.pos - 1]);
            proof {
                lemma_byte_len_push(self.chars@.take(self.pos - 1), self.chars@[self.pos - 1]);
                assert(self.chars@.take(self.pos - 1).push(self.chars@[self.pos - 1])
                    =~= self.chars@.take(self.pos as int));
            }
            self.pos = self.pos - 1;
            self.cursor = self.cursor - l;
        }
    }

    /// Moves the cursor one character right; nothing at the end.
    pub fn move_right(&mut self)
        requires
            old(self).wf(),
        ensures
            (final(self).text(), final(self).pos()) == edit_step(
                old(self).text(),
                old(self).pos(),
                EditOp::Right,
            ),
            final(self).wf(),
            final(self).text() == old(self).text(),
            final(self).pos() == if old(self).pos() < old(self).text().len() {
                old(self).pos() + 1
            } else {
                old(self).pos()
            },
    {
        if self.pos < self.chars.len() {
            let l = char_byte_len(self.chars[self.pos]);
            proof {
                self.lemma_wf_bounds();
                lemma_byte_len_push(self.chars@.take(self.pos as int), self.chars@[self.pos as int]);
                assert(self.chars@.take(self.pos as int).push(self.chars@[self.pos as int])
                    =~= self.chars@.take(self.pos + 1));
                lemma_byte_len_take(self.chars@, self.pos + 1);
            }
            self.pos = self.pos + 1;
            self.cursor = self.cursor + l;
        }
    }

    /// Puts the cursor at character index `p`.
    fn set_pos(&mut self, p: usize)
        requires
            old(self).wf(),
            p <= old(self).text().len(),
        ensures
            final(self).wf(),
            final(self).text() == old(self).text(),
            final(self).pos() == p,
    {
        let b = prefix_bytes(&self.chars, p);
        self.pos = p;
        self.cursor = b;
    }

    /// The display lines at `width` and the index of the cursor's line.
    fn locate(&self, width: usize) -> (r: (Vec<LineSpan>, usize))
        requires
            self.wf(),
        ensures
            spans_view(r.0@) == wrap_spans(self.text(), width as nat),
            r.1 as int == line_at(self.text(), width as nat, self.pos()),
            r.1 < r.0@.len(),
            0 <= r.0@[r.1 as int].start <= self.pos() <= r.0@[r.1 as int].end <= self.text().len(),
    {
        let spans = split_spans(&self.chars, width);
        let ghost sp = wrap_spans(self.chars@, width as nat);
        proof {
            lemma_wrap_tiles(self.chars@, width as nat);
            lemma_line_from(self.chars@, sp, self.pos as int, 0);
        }
        let mut j: usize = 0;
        while j < spans.len()
            invariant
                j <= spans@.len(),
                spans_view(spans@) == sp,
                sp == wrap_spans(self.chars@, width as nat),
                spans_tile(self.chars@, sp, self.chars@.len() as int),
                line_from(sp, self.pos as int, 0) == line_from(sp, self.pos as int, j as int),
            decreases spans@.len() - j,
        {
            assert(spans_view(spans@)[j as int] == spans@[j as int]@);
            if spans[j].start <= self.pos && self.pos <= spans[j].end {
                return (spans, j);
            }
            j = j + 1;
        }
        let n = spans.len() - 1;
        assert(spans_view(spans@)[n as int] == spans@[n as int]@);
        (spans, n)
    }

    /// Moves the cursor to the start of its display line at `width`.
    pub fn move_home(&mut self, width: usize)
        requires
            old(self).wf(),
        ensures
            (final(self).text(), final(self).pos()) == edit_step(
                old(self).text(),
                old(self).pos(),
                EditOp::Home(width),
            ),
            final(self).wf(),
            final(self).text() == old(self).text(),
            final(self).pos() == wrap_spans(old(self).text(), width as nat)[line_at(
                old(self).text(),
                width as nat,
                old(self).pos(),
            )].0,
    {
        let (spans, l) = self.locate(width);
        assert(spans_view(spans@)[l as int] == spans@[l as int]@);
        self.set_pos(spans[l].start);
    }

    /// Moves the cursor to the end of its display line at `width`.
    pub fn move_end(&mut self, width: usize)
        requires
            old(self).wf(),
        ensures
            (final(self).text(), final(self).pos()) == edit_step(
                old(self).text(),
                old(self).pos(),
                EditOp::End(width),
            ),
            final(self).wf(),
            final(self).text() == old(self).text(),
            final(self).pos() == wrap_spans(old(self).text(), width as nat)[line_at(
                old(self).text(),
                width as nat,
                old(self).pos(),
            )].1,
    {
        let (spans, l) = self.locate(width);
        assert(spans_view(spans@)[l as int] == spans@[l as int]@);
        self.set_pos(spans[l].end);
    }

    /// Moves the cursor to the same column of the display line above, or to
    /// that line's end where it is shorter; nothing on the first line.
    pub fn move_up(&mut self, width: usize)
        requires
            old(self).wf(),
        ensures
            (final(self).text(), final(self).pos()) == edit_step(
                old(self).text(),
                old(self).pos(),
                EditOp::Up(width),
            ),
            final(self).wf(),
            final(self).text() == old(self).text(),
            ({
                let s = old(self).text();
                let l = line_at(s, width as nat, old(self).pos());
                if l > 0 {
                    final(self).pos() == pos_on_line(s, width as nat, l - 1, col_at(s, width as nat, old(self).pos()))
                } else {
                    final(self).pos() == old(self).pos()
                }
            }),
    {
        let (spans, l) = self.locate(width);
        if l > 0 {
            assert(spans_view(spans@)[l as int] == spans@[l as int]@);
            assert(spans_view(spans@)[l - 1] == spans@[l - 1]@);
            let col = width_between(&self.chars, spans[l].start, self.pos);
            let t = spans[l - 1];
            proof {
                lemma_wrap_tiles(self.chars@, width as nat);
                let w = wrap_spans(self.chars@, width as nat);
                assert(0 <= w[l - 1].0 <= w[l - 1].1 <= self.chars@.len());
            }
            let k = fit_between(&self.chars, t.start, t.end, col);
            self.set_pos(t.start + k);
        }
    }

    /// Moves the cursor to the same column of the display line below, or to
    /// that line's end where it is shorter; nothing on the last line.
    pub fn move_down(&mut self, width: usize)
        requires
            old(self).wf(),
        ensures
            (final(self).text(), final(self).pos()) == edit_step(
                old(self).text(),
                old(self).pos(),
                EditOp::Down(width),
            ),
            final(self).wf(),
            final(self).text() == old(self).text(),
            ({
                let s = old(self).text();
                let l = line_at(s, width as nat, old(self).pos());
                if l + 1 < wrap_spans(s, width as nat).len() {
                    final(self).pos() == pos_on_line(s, width as nat, l + 1, col_at(s, width as nat, old(self).pos()))
                } else {
                    final(self).pos() == old(self).pos()
                }
            }),
    {
        let (spans, l) = self.locate(width);
        let n = spans.len();
        if l + 1 < n {
            assert(spans_view(spans@)[l as int] == spans@[l as int]@);
            assert(spans_view(spans@)[l + 1] == spans@[l + 1]@);
            let col = width_between(&self.chars, spans[l].start, self.pos);
            let t = spans[l + 1];
            proof {
                lemma_wrap_tiles(self.chars@, width as nat);
                let w = wrap_spans(self.chars@, width as nat);
                assert(0 <= w[l + 1].0 <= w[l + 1].1 <= self.chars@.len());
            }
            let k = fit_between(&self.chars, t.start, t.end, col);
            self.set_pos(t.start + k);
        }
    }

    /// The cursor's display line at `width` and its column on that line.
    pub fn line_col(&self, width: usize) -> (r: (usize, usize))
        requires
            self.wf(),
        ensures
            r.0 as int == line_at(self.text(), width as nat, self.pos()),
            r.1 as nat == col_at(self.text(), width as nat, self.pos()),
    {
        let (spans, l) = self.locate(width);
        assert(spans_view(spans@)[l as int] == spans@[l as int]@);
        let col = width_between(&self.chars, spans[l].start, self.pos);
        (l, col)
    }

    /// Empties the buffer; the cursor goes to 0.
    pub fn clear(&mut self)
        ensures
            (final(self).text(), final(self).pos()) == edit_step(
                old(self).text(),
                old(self).pos(),
                EditOp::Clear,
            ),
            final(self).wf(),
            final(self).text() == Seq::<char>::empty(),
            final(self).pos() == 0,
    {
        self.chars.clear();
        self.pos = 0;
        self.cursor = 0;
        proof {
            assert(self.chars@.take(0) =~= Seq::<char>::empty());
            assert(byte_len(Seq::<char>::empty()) == 0);
        }
    }
}

/// Whatever editing led to it, a well-formed editor's cursor lies on a
/// character boundary of its buffer, between 0 and the buffer's byte length;
/// every operation keeps the editor well-formed, starting from `new`.
pub proof fn lemma_cursor_on_boundary(e: &InputEditor)
    requires
        e.wf(),
    ensures
        is_boundary(e.text(), e.cursor_spec()),
        0 <= e.cursor_spec() <= byte_len(e.text()),
{
    lemma_byte_len_take(e.text(), e.pos());
    assert(byte_len(e.text().take(e.pos())) == e.cursor_spec());
}

} // verus!
