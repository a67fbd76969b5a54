//! Display-width measurement and splitting text into display lines.

use vstd::prelude::*;
use vstd::utf8::*;
use vstd::std_specs::iter::IteratorSpec;

verus! {

/// The column count that `unicode_width` assigns to one character
/// (`None` for control characters).
pub uninterp spec fn char_width_of(c: char) -> Option<usize>;

/// The column count that `unicode_width` assigns to a whole string.
pub uninterp spec fn str_width_of(s: Seq<char>) -> usize;


/// Bytes taken by `s` in UTF-8.
pub open spec fn byte_len(s: Seq<char>) -> nat {
    encode_utf8(s).len()
}

/// Bytes taken by one character in UTF-8.
pub open spec fn utf8_len(c: char) -> nat {
    encode_scalar(c as u32).len()
}

/// The longest prefix of `s` that fits in `b` bytes.
pub open spec fn chars_upto(s: Seq<char>, b: int) -> Seq<char>
    decreases s.len(),
{
    if s.len() == 0 || utf8_len(s[0]) > b {
        Seq::empty()
    } else {
        seq![s[0]] + chars_upto(s.drop_first(), b - utf8_len(s[0]))
    }
}

proof fn lemma_encode_concat(a: Seq<char>, b: Seq<char>)
    ensures
        encode_utf8(a + b) == encode_utf8(a) + encode_utf8(b),
    decreases a.len(),
{
    if a.len() == 0 {
        assert(a + b =~= b);
        assert(encode_utf8(a) + encode_utf8(b) =~= encode_utf8(b));
    } else {
        assert((a + b).drop_first() =~= a.drop_first() + b);
        lemma_encode_concat(a.drop_first(), b);
        assert((a + b)[0] == a[0]);
        assert(encode_utf8(a + b) =~= encode_utf8(a) + encode_utf8(b));
    }
}

pub proof fn lemma_byte_len_push(s: Seq<char>, c: char)
    ensures
        byte_len(s.push(c)) == byte_len(s) + utf8_len(c),
{
    lemma_encode_concat(s, seq![c]);
    assert(s + seq![c] =~= s.push(c));
    assert(seq![c].drop_first() =~= Seq::<char>::empty());
    assert(encode_utf8(Seq::<char>::empty()) =~= Seq::<u8>::empty());
    assert(seq![c][0] == c);
    assert(encode_utf8(seq![c]) =~= encode_scalar(c as u32));
}

pub proof fn lemma_byte_len_take(s: Seq<char>, k: int)
    requires
        0 <= k <= s.len(),
    ensures
        byte_len(s.take(k)) <= byte_len(s),
{
    lemma_byte_len_split(s, k);
}

pub proof fn lemma_byte_len_split(s: Seq<char>, k: int)
    requires
        0 <= k <= s.len(),
    ensures
        byte_len(s) == byte_len(s.take(k)) + byte_len(s.skip(k)),
{
    lemma_byte_len_concat(s.take(k), s.skip(k));
    assert(s.take(k) + s.skip(k) =~= s);
}

pub proof fn lemma_byte_len_concat(a: Seq<char>, b: Seq<char>)
    ensures
        byte_len(a + b) == byte_len(a) + byte_len(b),
    decreases b.len(),
{
    if b.len() == 0 {
        assert(a + b =~= a);
    } else {
        lemma_byte_len_concat(a, b.drop_last());
        lemma_byte_len_push(a + b.drop_last(), b.last());
        lemma_byte_len_push(b.drop_last(), b.last());
        assert((a + b.drop_last()).push(b.last()) =~= a + b);
        assert(b.drop_last().push(b.last()) =~= b);
    }
}

/// Bytes that `c` takes in UTF-8.
pub fn char_byte_len(c: char) -> (r: usize)
    ensures
        r == utf8_len(c),
        1 <= r <= 4,
{
    let v = c as u32;
    proof {
        broadcast use char_is_scalar;

        assert(is_scalar(c as u32));
    }
    if v <= 0x7f {
        1
    } else if v <= 0x7ff {
        2
    } else if v <= 0xffff {
        3
    } else {
        4
    }
}

/// The characters of `s`, in order.
pub fn chars_of(s: &str) -> (r: Vec<char>)
    ensures
        r@ == s@,
{
    let mut v: Vec<char> = Vec::new();
    let mut it = s.chars();
    proof {
        broadcast use vstd::string::axiom_spec_iter;

    }
    loop
        invariant
            it.obeys_prophetic_iter_laws(),
            it.decrease() is Some,
            v@ + it.remaining() == s@,
        ensures
            v@ == s@,
        decreases it.decrease()->0,
    {
        match it.next() {
            Some(c) => {
                proof {
                    assert(v@.push(c) + it.remaining() =~= s@);
                }
                v.push(c);
            },
            None => {
                proof {
                    assert(v@ =~= s@);
                }
                break ;
            },
        }
    }
    v
}

/// Relies on `String::push`: appends one character.
#[verifier::external_body]
pub(crate) fn push_char(s: &mut String, c: char)
    ensures
        final(s)@ == old(s)@.push(c),
{
    s.push(c)
}

/// The characters `from..to` of `v` as a string.
pub fn string_of(v: &Vec<char>, from: usize, to: usize) -> (r: String)
    requires
        from <= to <= v@.len(),
    ensures
        r@ == v@.subrange(from as int, to as int),
{
    let mut s = String::new();
    let mut i = from;
    while i < to
        invariant
            from <= i <= to <= v@.len(),
            s@ == v@.subrange(from as int, i as int),
        decreases to - i,
    {
        push_char(&mut s, v[i]);
        proof {
            assert(s@ =~= v@.subrange(from as int, i + 1));
        }
        i = i + 1;
    }
    s
}

/// Control characters: C0 and C1 ranges.
pub open spec fn is_control(c: char) -> bool {
    (c as u32) < 0x20 || (0x7f <= (c as u32) && (c as u32) < 0xa0)
}

/// Relies on `unicode_width::UnicodeWidthChar::width`: `None` exactly for
/// control characters, one column for printable ASCII, never more than three.
#[verifier::external_body]
fn char_width_opt(c: char) -> (r: Option<usize>)
    ensures
        r == char_width_of(c),
        r is None <==> is_control(c),
        (0x20 <= (c as u32) && (c as u32) < 0x7f) ==> r == Some(1usize),
        r matches Some(w) ==> w <= 3,
{
    unicode_width::UnicodeWidthChar::width(c)
}

/// Relies on `unicode_width::UnicodeWidthStr::width`: the width of a string as
/// a terminal lays it out; the empty string has width zero.
#[verifier::external_body]
fn str_width(s: &str) -> (r: usize)
    ensures
        r == str_width_of(s@),
        s@.len() == 0 ==> r == 0,
{
    unicode_width::UnicodeWidthStr::width(s)
}

/// Columns taken by one character; control characters take none.
pub open spec fn cols(c: char) -> nat {
    match char_width_of(c) {
        Some(w) => w as nat,
        None => 0,
    }
}

/// Columns taken by a sequence of characters, measured character by character.
pub open spec fn seq_width(s: Seq<char>) -> nat
    decreases s.len(),
{
    if s.len() == 0 {
        0
    } else {
        seq_width(s.drop_last()) + cols(s.last())
    }
}

/// Display width of one character: 0 for control characters.
pub fn char_width(c: char) -> (r: usize)
    ensures
        r == cols(c),
        r <= 3,
        is_control(c) ==> r == 0,
        (0x20 <= (c as u32) && (c as u32) < 0x7f) ==> r == 1,
{
    match char_width_opt(c) {
        Some(w) => w,
        None => 0,
    }
}

/// A display line: the characters `start..end` of a text, and whether an
/// explicit newline (at index `end`) closed it.
#[derive(Clone, Copy, Debug, PartialEq, Eq)]
pub struct LineSpan {
    pub start: usize,
    pub end: usize,
    pub newline: bool,
}

impl LineSpan {
    pub open spec fn view(&self) -> (int, int, bool) {
        (self.start as int, self.end as int, self.newline)
    }
}

/// Closed spans, start of the open line, columns used on the open line.
pub type WrapState = (Seq<(int, int, bool)>, int, nat);

/// One step of the greedy wrapper on character `c` at index `i`.
pub open spec fn wrap_step(st: WrapState, i: int, c: char, width: nat) -> WrapState {
    if c == '\n' {
        (st.0.push((st.1, i, true)), i + 1, 0)
    } else if st.2 + cols(c) > width {
        (st.0.push((st.1, i, false)), i, cols(c))
    } else {
        (st.0, st.1, st.2 + cols(c))
    }
}

/// The wrapper's state after reading all of `s`.
pub open spec fn wrap_state(s: Seq<char>, width: nat) -> WrapState
    decreases s.len(),
{
    if s.len() == 0 {
        (Seq::empty(), 0, 0)
    } else {
        wrap_step(wrap_state(s.drop_last(), width), s.len() - 1, s.last(), width)
    }
}

/// The display lines of `s` at `width` columns, as character ranges; the last
/// line is always present, possibly empty.
pub open spec fn wrap_spans(s: Seq<char>, width: nat) -> Seq<(int, int, bool)> {
    let st = wrap_state(s, width);
    st.0.push((st.1, s.len() as int, false))
}

pub open spec fn spans_view(v: Seq<LineSpan>) -> Seq<(int, int, bool)> {
    v.map_values(|l: LineSpan| l@)
}


/// The text of display lines put back together: each line's characters,
/// followed by a newline where one closed it.
pub open spec fn join_spans(s: Seq<char>, spans: Seq<(int, int, bool)>) -> Seq<char>
    decreases spans.len(),
{
    if spans.len() == 0 {
        Seq::empty()
    } else {
        let sp = spans.last();
        join_spans(s, spans.drop_last()) + s.subrange(sp.0, sp.1) + (if sp.2 {
            seq!['\n']
        } else {
            Seq::empty()
        })
    }
}

/// The spans lie in `s` and follow each other, newlines in between.
pub open spec fn spans_tile(s: Seq<char>, spans: Seq<(int, int, bool)>, next: int) -> bool {
    &&& forall|j: int|
        0 <= j < spans.len() ==> 0 <= #[trigger] spans[j].0 <= spans[j].1 <= s.len() && (
        spans[j].2 ==> spans[j].1 < s.len() && s[spans[j].1] == '\n')
    &&& forall|j: int|
        0 <= j < spans.len() - 1 ==> #[trigger] spans[j + 1].0 == spans[j].1 + (if spans[j].2 {
            1int
        } else {
            0int
        })
    &&& spans.len() > 0 ==> spans[0].0 == 0
    &&& spans.len() == 0 ==> next == 0
    &&& spans.len() > 0 ==> next == spans.last().1 + (if spans.last().2 {
        1int
    } else {
        0int
    })
}

pub open spec fn all_fit(s: Seq<char>, width: nat) -> bool {
    forall|k: int| 0 <= k < s.len() ==> cols(#[trigger] s[k]) <= width
}

pub open spec fn wrap_ok(s: Seq<char>, width: nat, st: WrapState) -> bool {
    &&& 0 <= st.1 <= s.len()
    &&& spans_tile(s, st.0, st.1)
    &&& join_spans(s, st.0) + s.subrange(st.1, s.len() as int) == s
    &&& st.2 == seq_width(s.subrange(st.1, s.len() as int))
    &&& all_fit(s, width) ==> st.2 <= width && forall|j: int|
        0 <= j < st.0.len() ==> seq_width(s.subrange(#[trigger] st.0[j].0, st.0[j].1)) <= width
}

proof fn lemma_join_prefix(s: Seq<char>, p: Seq<char>, spans: Seq<(int, int, bool)>)
    requires
        p.len() <= s.len(),
        p == s.take(p.len() as int),
        forall|j: int| 0 <= j < spans.len() ==> 0 <= #[trigger] spans[j].0 <= spans[j].1 <= p.len(),
    ensures
        join_spans(s, spans) == join_spans(p, spans),
    decreases spans.len(),
{
    if spans.len() > 0 {
        let q = spans.drop_last();
        assert forall|j: int| 0 <= j < q.len() implies 0 <= #[trigger] q[j].0 <= q[j].1 <= p.len() by {
            assert(q[j] == spans[j]);
        }
        lemma_join_prefix(s, p, q);
        let sp = spans.last();
        assert(s.subrange(sp.0, sp.1) =~= p.subrange(sp.0, sp.1));
    }
}

proof fn lemma_width_push(x: Seq<char>, c: char)
    ensures
        seq_width(x.push(c)) == seq_width(x) + cols(c),
{
    assert(x.push(c).drop_last() =~= x);
}

proof fn lemma_wrap_step(p: Seq<char>, c: char, width: nat)
    requires
        wrap_ok(p, width, wrap_state(p, width)),
    ensures
        wrap_ok(p.push(c), width, wrap_state(p.push(c), width)),
{
    let s = p.push(c);
    let n = s.len() as int;
    let st = wrap_state(p, width);
    let nst = wrap_state(s, width);
    assert(s.drop_last() =~= p);
    assert(p =~= s.take(n - 1));
    lemma_join_prefix(s, p, st.0);
    assert(all_fit(s, width) ==> all_fit(p, width)) by {
        if all_fit(s, width) {
            assert forall|k: int| 0 <= k < p.len() implies cols(#[trigger] p[k]) <= width by {
                assert(p[k] == s[k]);
            }
        }
    }
    let tail = p.subrange(st.1, n - 1);
    assert(s.subrange(st.1, n) =~= tail.push(c));
    assert(s.subrange(st.1, n - 1) =~= tail);
    lemma_width_push(tail, c);
    assert forall|j: int| 0 <= j < st.0.len() implies s.subrange(#[trigger] st.0[j].0, st.0[j].1)
        == p.subrange(st.0[j].0, st.0[j].1) by {
        assert(s.subrange(st.0[j].0, st.0[j].1) =~= p.subrange(st.0[j].0, st.0[j].1));
    }
    if c == '\n' {
        lemma_close_line(p, c, width, true);
    } else if st.2 + cols(c) > width {
        lemma_close_line(p, c, width, false);
    } else {
        assert(nst.0 == st.0 && nst.1 == st.1);
        assert(join_spans(p, st.0) + tail == p);
        assert(join_spans(s, st.0) + tail.push(c) =~= (join_spans(p, st.0) + tail).push(c));
    }
}

proof fn lemma_close_line(p: Seq<char>, c: char, width: nat, nl: bool)
    requires
        wrap_ok(p, width, wrap_state(p, width)),
        nl == (c == '\n'),
        nl || wrap_state(p, width).2 + cols(c) > width,
        join_spans(p.push(c), wrap_state(p, width).0) == join_spans(p, wrap_state(p, width).0),
        all_fit(p.push(c), width) ==> all_fit(p, width),
        p.push(c).subrange(wrap_state(p, width).1, p.len() as int) == p.subrange(
            wrap_state(p, width).1,
            p.len() as int,
        ),
        forall|j: int|
            0 <= j < wrap_state(p, width).0.len() ==> p.push(c).subrange(
                #[trigger] wrap_state(p, width).0[j].0,
                wrap_state(p, width).0[j].1,
            ) == p.subrange(wrap_state(p, width).0[j].0, wrap_state(p, width).0[j].1),
    ensures
        wrap_ok(p.push(c), width, wrap_state(p.push(c), width)),
{
    let s = p.push(c);
    let n = s.len() as int;
    let st = wrap_state(p, width);
    let nst = wrap_state(s, width);
    assert(s.drop_last() =~= p);
    assert(nst.0.drop_last() =~= st.0);
    assert(forall|j: int| 0 <= j < st.0.len() ==> nst.0[j] == st.0[j]);
    if nl {
        assert(s.subrange(n, n) =~= Seq::<char>::empty());
        assert(join_spans(s, nst.0) + s.subrange(nst.1, n) =~= s);
    } else {
        assert(s.subrange(n - 1, n) =~= seq![c]);
        assert(join_spans(s, nst.0) + s.subrange(nst.1, n) =~= s);
        lemma_width_push(Seq::<char>::empty(), c);
        assert(seq![c] =~= Seq::<char>::empty().push(c));
        if all_fit(s, width) {
            assert(cols(s[n - 1]) <= width);
        }
    }
}

proof fn lemma_wrap_state(s: Seq<char>, width: nat)
    ensures
        wrap_ok(s, width, wrap_state(s, width)),
    decreases s.len(),
{
    if s.len() == 0 {
        assert(s.subrange(0, 0) =~= s);
    } else {
        lemma_wrap_state(s.drop_last(), width);
        lemma_wrap_step(s.drop_last(), s.last(), width);
        assert(s.drop_last().push(s.last()) =~= s);
    }
}

/// Every display line fits in `width` columns, provided that no single
/// character is wider than `width`.
pub proof fn lemma_wrap_width(s: Seq<char>, width: nat)
    requires
        all_fit(s, width),
    ensures
        forall|j: int|
            0 <= j < wrap_spans(s, width).len() ==> seq_width(
                s.subrange(#[trigger] wrap_spans(s, width)[j].0, wrap_spans(s, width)[j].1),
            ) <= width,
{
    lemma_wrap_state(s, width);
    let st = wrap_state(s, width);
    let sp = wrap_spans(s, width);
    assert forall|j: int| 0 <= j < sp.len() implies seq_width(
        s.subrange(#[trigger] sp[j].0, sp[j].1),
    ) <= width by {
        if j < st.0.len() {
            assert(sp[j] == st.0[j]);
        }
    }
}

/// Putting the display lines back together, with the newlines that closed
/// them, gives back the text.
pub proof fn lemma_wrap_round_trip(s: Seq<char>, width: nat)
    ensures
        join_spans(s, wrap_spans(s, width)) == s,
{
    lemma_wrap_state(s, width);
    let st = wrap_state(s, width);
    assert(wrap_spans(s, width).drop_last() =~= st.0);
    assert(join_spans(s, wrap_spans(s, width)) =~= s);
}

/// The display lines cover the text: the first starts at 0, each starts where
/// the previous one ended (after its newline), and the last ends at the end.
pub proof fn lemma_wrap_tiles(s: Seq<char>, width: nat)
    ensures
        spans_tile(s, wrap_spans(s, width), s.len() as int),
        wrap_spans(s, width).len() >= 1,
        wrap_spans(s, width).last().1 == s.len(),
        !wrap_spans(s, width).last().2,
{
    lemma_wrap_state(s, width);
    let st = wrap_state(s, width);
    let sp = wrap_spans(s, width);
    assert(forall|j: int| 0 <= j < st.0.len() ==> sp[j] == st.0[j]);
}

/// Splits `text` into display lines of at most `width` columns: a line is
/// closed before a character that would overflow it, and at each newline,
/// which belongs to no line.
pub fn split_spans(text: &Vec<char>, width: usize) -> (r: Vec<LineSpan>)
    ensures
        spans_view(r@) == wrap_spans(text@, width as nat),
{
    let mut spans: Vec<LineSpan> = Vec::new();
    let mut start: usize = 0;
    let mut cur: usize = 0;
    let mut i: usize = 0;
    while i < text.len()
        invariant
            i <= text@.len(),
            (spans_view(spans@), start as int, cur as nat) == wrap_state(text@.take(i as int), width as nat),
            start <= i,
            cur <= width || cur <= 3,
        decreases text@.len() - i,
    {
        let c = text[i];
        let cw = char_width(c);
        proof {
            assert(text@.take(i + 1).drop_last() =~= text@.take(i as int));
        }
        if c == '\n' {
            spans.push(LineSpan { start, end: i, newline: true });
            start = i + 1;
            cur = 0;
        } else if cw > width || cur > width - cw {
            spans.push(LineSpan { start, end: i, newline: false });
            start = i;
            cur = cw;
        } else {
            cur = cur + cw;
        }
        proof {
            assert(spans_view(spans@) =~= wrap_state(text@.take(i + 1), width as nat).0);
        }
        i = i + 1;
    }
    spans.push(LineSpan { start, end: i, newline: false });
    proof {
        assert(text@.take(i as int) =~= text@);
        assert(spans_view(spans@) =~= wrap_spans(text@, width as nat));
    }
    spans
}


/// The display lines an input box shows: all of them, less the empty line
/// that a final newline opens.
pub open spec fn input_spans(s: Seq<char>, width: nat) -> Seq<(int, int, bool)> {
    if s.len() > 0 && s.last() == '\n' {
        wrap_spans(s, width).drop_last()
    } else {
        wrap_spans(s, width)
    }
}

/// The characters of the lines an input box shows.
pub open spec fn input_lines(s: Seq<char>, width: nat) -> Seq<Seq<char>> {
    input_spans(s, width).map_values(|sp: (int, int, bool)| s.subrange(sp.0, sp.1))
}

pub open spec fn strings_view(v: Seq<String>) -> Seq<Seq<char>> {
    v.map_values(|l: String| l@)
}

/// No character of `s` in `from..to` is a newline.
pub open spec fn newline_free(s: Seq<char>, from: int, to: int) -> bool {
    forall|k: int| from <= k < to ==> #[trigger] s[k] != '\n'
}

pub open spec fn spans_newline_free(s: Seq<char>, spans: Seq<(int, int, bool)>) -> bool {
    forall|j: int| 0 <= j < spans.len() ==> newline_free(s, #[trigger] spans[j].0, spans[j].1)
}

proof fn lemma_wrap_newline_free(s: Seq<char>, width: nat)
    ensures
        spans_newline_free(s, wrap_state(s, width).0),
        newline_free(s, wrap_state(s, width).1, s.len() as int),
    decreases s.len(),
{
    if s.len() > 0 {
        let p = s.drop_last();
        let n = s.len() as int;
        lemma_wrap_newline_free(p, width);
        lemma_wrap_state(p, width);
        let st = wrap_state(p, width);
        let nst = wrap_state(s, width);
        assert forall|k: int| 0 <= k < n - 1 implies s[k] == p[k] by {}
        assert forall|j: int| 0 <= j < nst.0.len() implies newline_free(
            s,
            #[trigger] nst.0[j].0,
            nst.0[j].1,
        ) by {
            if j < st.0.len() {
                assert(nst.0[j] == st.0[j]);
                assert(0 <= st.0[j].0 <= st.0[j].1 <= p.len());
                assert(newline_free(p, st.0[j].0, st.0[j].1));
            } else {
                assert(nst.0[j] == (st.1, n - 1, s.last() == '\n'));
                assert(newline_free(p, st.1, n - 1));
            }
        }
        assert(newline_free(p, st.1, n - 1));
    }
}

/// The input box's lines lie in the text in order, and the first one is
/// always there.
pub proof fn lemma_input_spans(s: Seq<char>, width: nat)
    ensures
        input_spans(s, width).len() >= 1,
        forall|j: int|
            0 <= j < input_spans(s, width).len() ==> 0 <= #[trigger] input_spans(s, width)[j].0
                <= input_spans(s, width)[j].1 <= s.len(),
        forall|j: int|
            0 <= j < input_spans(s, width).len() ==> input_spans(s, width)[j] == wrap_spans(
                s,
                width,
            )[j],
{
    lemma_wrap_tiles(s, width);
    if s.len() > 0 && s.last() == '\n' {
        assert(wrap_state(s, width).0.len() >= 1);
    }
}

/// The lines an input box shows hold no newline, and putting them back
/// together, each followed by the newline that closed it (if one did), gives
/// back the text.
pub proof fn lemma_input_round_trip(s: Seq<char>, width: nat)
    ensures
        join_spans(s, input_spans(s, width)) == s,
        forall|j: int, k: int|
            0 <= j < input_lines(s, width).len() && 0 <= k < input_lines(s, width)[j].len()
                ==> #[trigger] input_lines(s, width)[j][k] != '\n',
{
    lemma_wrap_round_trip(s, width);
    lemma_wrap_tiles(s, width);
    lemma_wrap_newline_free(s, width);
    lemma_input_spans(s, width);
    let w = wrap_spans(s, width);
    let st = wrap_state(s, width);
    assert(w.drop_last() =~= st.0);
    if s.len() > 0 && s.last() == '\n' {
        let n = s.len() as int;
        assert(s.subrange(n, n) =~= Seq::<char>::empty());
        assert(join_spans(s, w) =~= join_spans(s, w.drop_last()));
    }
    assert forall|j: int, k: int|
        0 <= j < input_lines(s, width).len() && 0 <= k < input_lines(s, width)[j].len() implies #[trigger] input_lines(
        s,
        width,
    )[j][k] != '\n' by {
        let sp = input_spans(s, width)[j];
        assert(sp == w[j]);
        if j < st.0.len() {
            assert(w[j] == st.0[j]);
            assert(newline_free(s, st.0[j].0, st.0[j].1));
        } else {
            assert(newline_free(s, st.1, s.len() as int));
        }
        assert(s[sp.0 + k] != '\n');
    }
}

/// Splits `input` into the lines an input box of `width` columns shows.
pub fn split_input_lines(input: &str, width: usize) -> (r: Vec<String>)
    ensures
        strings_view(r@) == input_lines(input@, width as nat),
{
    let text = chars_of(input);
    let spans = split_spans(&text, width);
    proof {
        lemma_wrap_tiles(text@, width as nat);
        lemma_input_spans(text@, width as nat);
    }
    let n = if text.len() > 0 && text[text.len() - 1] == '\n' {
        spans.len() - 1
    } else {
        spans.len()
    };
    let ghost all = input_lines(text@, width as nat);
    let ghost isp = input_spans(text@, width as nat);
    let mut lines: Vec<String> = Vec::new();
    let mut k: usize = 0;
    while k < n
        invariant
            n == isp.len() <= spans@.len(),
            k <= n,
            spans_view(spans@) == wrap_spans(text@, width as nat),
            isp == input_spans(text@, width as nat),
            forall|j: int| 0 <= j < isp.len() ==> 0 <= #[trigger] isp[j].0 <= isp[j].1 <= text@.len(),
            forall|j: int| 0 <= j < isp.len() ==> isp[j] == wrap_spans(text@, width as nat)[j],
            all == input_lines(text@, width as nat),
            strings_view(lines@) == all.take(k as int),
            lines@.len() == k,
        decreases n - k,
    {
        let sp = spans[k];
        proof {
            assert(spans_view(spans@)[k as int] == sp@);
            assert(isp[k as int] == sp@);
            assert(0 <= isp[k as int].0 <= isp[k as int].1 <= text@.len());
        }
        let line = string_of(&text, sp.start, sp.end);
        let ghost lv = line@;
        lines.push(line);
        proof {
            assert(strings_view(lines@)[k as int] == lv);
            assert(strings_view(lines@) =~= all.take(k + 1));
        }
        k = k + 1;
    }
    proof {
        assert(strings_view(lines@) =~= all);
    }
    lines
}

/// The prefix of `v` that fits in `b` bytes.
fn prefix_within(v: &Vec<char>, b: usize) -> (r: String)
    ensures
        r@ == chars_upto(v@, b as int),
{
    let ghost s = v@;
    let mut used: usize = 0;
    let mut k: usize = 0;
    proof {
        assert(v@.skip(0) =~= v@);
        assert(v@.take(0) + chars_upto(s, b as int) =~= chars_upto(s, b as int));
    }
    while k < v.len()
        invariant
            k <= v@.len(),
            used <= b,
            v@ == s,
            chars_upto(s, b as int) == v@.take(k as int) + chars_upto(v@.skip(k as int), b - used),
        decreases v@.len() - k,
    {
        let l = char_byte_len(v[k]);
        proof {
            assert(v@.skip(k as int)[0] == v@[k as int]);
            assert(v@.skip(k as int).drop_first() =~= v@.skip(k + 1));
        }
        if l > b - used {
            proof {
                assert(chars_upto(v@.skip(k as int), b - used) == Seq::<char>::empty());
                assert(v@.take(k as int) + Seq::<char>::empty() =~= v@.take(k as int));
            }
            return string_of(v, 0, k);
        }
        proof {
            assert(v@.take(k + 1) =~= v@.take(k as int) + seq![v@[k as int]]);
            assert(v@.take(k + 1) + chars_upto(v@.skip(k + 1), b - (used + l)) =~= v@.take(k as int)
                + (seq![v@[k as int]] + chars_upto(v@.skip(k + 1), b - (used + l))));
        }
        used = used + l;
        k = k + 1;
    }
    proof {
        assert(v@.skip(k as int).len() == 0);
        assert(v@.take(k as int) + Seq::<char>::empty() =~= v@);
    }
    string_of(v, 0, k)
}

/// `Some(byte_len(v[..k]))` when that is at most `limit`, else `None`.
fn bytes_within(v: &Vec<char>, k: usize, limit: usize) -> (r: Option<usize>)
    requires
        k <= v@.len(),
    ensures
        match r {
            Some(n) => n == byte_len(v@.take(k as int)) && n <= limit,
            None => byte_len(v@.take(k as int)) > limit,
        },
{
    let mut acc: usize = 0;
    let mut i: usize = 0;
    proof {
        assert(byte_len(v@.take(0)) == 0);
    }
    while i < k
        invariant
            i <= k <= v@.len(),
            acc <= limit,
            acc == byte_len(v@.take(i as int)),
        decreases k - i,
    {
        let l = char_byte_len(v[i]);
        proof {
            lemma_byte_len_push(v@.take(i as int), v@[i as int]);
            assert(v@.take(i as int).push(v@[i as int]) =~= v@.take(i + 1));
        }
        if l > limit - acc {
            proof {
                assert(v@.take(k as int).take(i + 1) =~= v@.take(i + 1));
                lemma_byte_len_take(v@.take(k as int), i + 1);
            }
            return None;
        }
        acc = acc + l;
        i = i + 1;
    }
    Some(acc)
}

/// The characters `from..to` of `v`.
fn slice_of(v: &Vec<char>, from: usize, to: usize) -> (r: Vec<char>)
    requires
        from <= to <= v@.len(),
    ensures
        r@ == v@.subrange(from as int, to as int),
{
    let mut out: Vec<char> = Vec::new();
    let mut i = from;
    while i < to
        invariant
            from <= i <= to <= v@.len(),
            out@ == v@.subrange(from as int, i as int),
        decreases to - i,
    {
        out.push(v[i]);
        proof {
            assert(out@ =~= v@.subrange(from as int, i + 1));
        }
        i = i + 1;
    }
    out
}

/// Line and column of byte offset `cursor` in `s`, searching `spans` from
/// line `i`: the first line whose bytes (from the offset of its first
/// character to the end of its last) hold the cursor, and the display width
/// of that line's characters before the cursor; past every line, the end of
/// the last one.
pub open spec fn line_col_from(s: Seq<char>, spans: Seq<(int, int, bool)>, cursor: int, i: int) -> (
    int,
    int,
)
    decreases spans.len() - i,
{
    if i < 0 || i >= spans.len() {
        if spans.len() == 0 {
            (0, 0)
        } else {
            (spans.len() - 1, str_width_of(s.subrange(spans.last().0, spans.last().1)) as int)
        }
    } else if byte_len(s.take(spans[i].0)) <= cursor <= byte_len(s.take(spans[i].1)) {
        (
            i,
            str_width_of(
                chars_upto(s.subrange(spans[i].0, spans[i].1), cursor - byte_len(s.take(spans[i].0))),
            ) as int,
        )
    } else {
        line_col_from(s, spans, cursor, i + 1)
    }
}

/// The input box line (of `split_input_lines(input, width)`) that holds
/// byte offset `cursor_byte_idx` of `input`, each consumed newline taking
/// its byte, and the display width of that line up to the cursor; past the
/// end, the end of the last line.
pub fn cursor_line_col(cursor_byte_idx: usize, input: &str, width: usize) -> (r: (usize, usize))
    ensures
        (r.0 as int, r.1 as int) == line_col_from(
            input@,
            input_spans(input@, width as nat),
            cursor_byte_idx as int,
            0,
        ),
{
    let text = chars_of(input);
    let spans = split_spans(&text, width);
    proof {
        lemma_input_spans(text@, width as nat);
        lemma_wrap_tiles(text@, width as nat);
    }
    let n = if text.len() > 0 && text[text.len() - 1] == '\n' {
        spans.len() - 1
    } else {
        spans.len()
    };
    let ghost isp = input_spans(text@, width as nat);
    let mut i: usize = 0;
    while i < n
        invariant
            1 <= n == isp.len() <= spans@.len(),
            i <= n,
            text@ == input@,
            spans_view(spans@) == wrap_spans(text@, width as nat),
            isp == input_spans(text@, width as nat),
            forall|j: int| 0 <= j < isp.len() ==> 0 <= #[trigger] isp[j].0 <= isp[j].1 <= text@.len(),
            forall|j: int| 0 <= j < isp.len() ==> isp[j] == wrap_spans(text@, width as nat)[j],
            line_col_from(text@, isp, cursor_byte_idx as int, 0) == line_col_from(
                text@,
                isp,
                cursor_byte_idx as int,
                i as int,
            ),
        decreases n - i,
    {
        let sp = spans[i];
        proof {
            assert(spans_view(spans@)[i as int] == sp@);
            assert(isp[i as int] == sp@);
        }
        if let Some(sb) = bytes_within(&text, sp.start, cursor_byte_idx) {
            let inside = match bytes_within(&text, sp.end, cursor_byte_idx) {
                None => true,
                Some(eb) => eb == cursor_byte_idx,
            };
            if inside {
                let line = slice_of(&text, sp.start, sp.end);
                let prefix = prefix_within(&line, cursor_byte_idx - sb);
                let w = str_width(prefix.as_str());
                return (i, w);
            }
        }
        i = i + 1;
    }
    let last = spans[n - 1];
    proof {
        assert(spans_view(spans@)[n - 1] == last@);
        assert(isp[n - 1] == last@);
    }
    let line = string_of(&text, last.start, last.end);
    (n - 1, str_width(line.as_str()))
}

/// Columns left for content once `prefix` is drawn in `width` columns.
pub open spec fn content_width(width: nat, prefix: Seq<char>) -> nat {
    if width > str_width_of(prefix) {
        (width - str_width_of(prefix)) as nat
    } else {
        0
    }
}

/// The input lines of `content`, each preceded by `prefix`, in `width`
/// columns in all.
pub open spec fn prefixed_lines(content: Seq<char>, width: nat, prefix: Seq<char>) -> Seq<Seq<char>> {
    input_lines(content, content_width(width, prefix)).map_values(|l: Seq<char>| prefix + l)
}

/// Appends the characters `from..to` of `v` to `s`.
fn append_range(s: &mut String, v: &Vec<char>, from: usize, to: usize)
    requires
        from <= to <= v@.len(),
    ensures
        final(s)@ == old(s)@ + v@.subrange(from as int, to as int),
{
    let mut i = from;
    while i < to
        invariant
            from <= i <= to <= v@.len(),
            s@ == old(s)@ + v@.subrange(from as int, i as int),
        decreases to - i,
    {
        push_char(s, v[i]);
        proof {
            assert(s@ =~= old(s)@ + v@.subrange(from as int, i + 1));
        }
        i = i + 1;
    }
}

/// Wraps `content` as `split_input_lines` does, in the columns that
/// `prefix` leaves of `width`, and starts each line with `prefix`; empty
/// content gives one line holding the bare prefix.
pub fn wrap_with_prefixes(content: &str, width: usize, prefix: &str) -> (r: Vec<String>)
    ensures
        strings_view(r@) == prefixed_lines(content@, width as nat, prefix@),
{
    let pw = str_width(prefix);
    let avail: usize = if width > pw {
        width - pw
    } else {
        0
    };
    let text = chars_of(content);
    let pre = chars_of(prefix);
    let spans = split_spans(&text, avail);
    proof {
        lemma_wrap_tiles(text@, avail as nat);
        lemma_input_spans(text@, avail as nat);
    }
    let n = if text.len() > 0 && text[text.len() - 1] == '\n' {
        spans.len() - 1
    } else {
        spans.len()
    };
    let ghost isp = input_spans(text@, avail as nat);
    let ghost all = prefixed_lines(content@, width as nat, prefix@);
    let mut lines: Vec<String> = Vec::new();
    let mut k: usize = 0;
    while k < n
        invariant
            n == isp.len() <= spans@.len(),
            k <= n,
            spans_view(spans@) == wrap_spans(text@, avail as nat),
            isp == input_spans(text@, avail as nat),
            forall|j: int| 0 <= j < isp.len() ==> 0 <= #[trigger] isp[j].0 <= isp[j].1 <= text@.len(),
            forall|j: int| 0 <= j < isp.len() ==> isp[j] == wrap_spans(text@, avail as nat)[j],
            text@ == content@,
            pre@ == prefix@,
            avail as nat == content_width(width as nat, prefix@),
            all == prefixed_lines(content@, width as nat, prefix@),
            strings_view(lines@) == all.take(k as int),
            lines@.len() == k,
        decreases n - k,
    {
        let sp = spans[k];
        proof {
            assert(spans_view(spans@)[k as int] == sp@);
            assert(isp[k as int] == sp@);
            assert(0 <= isp[k as int].0 <= isp[k as int].1 <= text@.len());
        }
        let mut line = String::new();
        append_range(&mut line, &pre, 0, pre.len());
        append_range(&mut line, &text, sp.start, sp.end);
        let ghost lv = line@;
        proof {
            assert(pre@.subrange(0, pre@.len() as int) =~= pre@);
            assert(Seq::<char>::empty() + pre@ =~= pre@);
            assert(lv == all[k as int]);
        }
        lines.push(line);
        proof {
            assert(strings_view(lines@)[k as int] == lv);
            assert(strings_view(lines@) =~= all.take(k + 1));
        }
        k = k + 1;
    }
    proof {
        assert(strings_view(lines@) =~= all);
    }
    lines
}

} // verus!
