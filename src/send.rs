//! Sending: trimming the composed message and the cooldown between sends.

use vstd::prelude::*;
use crate::editor::InputEditor;
use crate::text::string_of;

verus! {

/// Shortest time between two accepted sends, in milliseconds.
pub const SEND_COOLDOWN_MS: u64 = 500;

/// Unicode's White_Space property.
pub open spec fn white_space(c: char) -> bool {
    let v = c as u32;
    (0x9 <= v && v <= 0xd) || v == 0x20 || v == 0x85 || v == 0xa0 || v == 0x1680 || (0x2000 <= v
        && v <= 0x200a) || v == 0x2028 || v == 0x2029 || v == 0x202f || v == 0x205f || v == 0x3000
}

/// Whether `c` has the White_Space property, as `char::is_whitespace`
/// decides it.
pub fn is_whitespace(c: char) -> (r: bool)
    ensures
        r == white_space(c),
{
    let v = c as u32;
    (0x9 <= v && v <= 0xd) || v == 0x20 || v == 0x85 || v == 0xa0 || v == 0x1680 || (0x2000 <= v
        && v <= 0x200a) || v == 0x2028 || v == 0x2029 || v == 0x202f || v == 0x205f || v == 0x3000
}

/// Number of white-space characters that start `s`.
pub open spec fn lead_ws(s: Seq<char>) -> nat
    decreases s.len(),
{
    if s.len() > 0 && white_space(s[0]) {
        1 + lead_ws(s.drop_first())
    } else {
        0
    }
}

/// Number of white-space characters that end `s`.
pub open spec fn trail_ws(s: Seq<char>) -> nat
    decreases s.len(),
{
    if s.len() > 0 && white_space(s.last()) {
        1 + trail_ws(s.drop_last())
    } else {
        0
    }
}

/// `s` without its leading and trailing white space.
pub open spec fn trimmed(s: Seq<char>) -> Seq<char> {
    if lead_ws(s) >= s.len() {
        Seq::empty()
    } else {
        s.subrange(lead_ws(s) as int, s.len() - trail_ws(s))
    }
}

/// The characters of `v` without leading and trailing white space.
pub fn trim_chars(v: &Vec<char>) -> (r: String)
    ensures
        r@ == trimmed(v@),
{
    let n = v.len();
    let mut a: usize = 0;
    proof {
        assert(v@.skip(0) =~= v@);
    }
    while a < n && is_whitespace(v[a])
        invariant
            a <= n == v@.len(),
            lead_ws(v@) == a + lead_ws(v@.skip(a as int)),
        decreases n - a,
    {
        proof {
            assert(v@.skip(a as int)[0] == v@[a as int]);
            assert(v@.skip(a as int).drop_first() =~= v@.skip(a + 1));
        }
        a = a + 1;
    }
    proof {
        if a < n {
            assert(v@.skip(a as int)[0] == v@[a as int]);
        }
    }
    if a == n {
        return String::new();
    }
    let mut b: usize = n;
    proof {
        assert(v@.take(n as int) =~= v@);
    }
    while b > a + 1 && is_whitespace(v[b - 1])
        invariant
            a < b <= n == v@.len(),
            lead_ws(v@) == a,
            !white_space(v@[a as int]),
            trail_ws(v@) == (n - b) + trail_ws(v@.take(b as int)),
        decreases b,
    {
        proof {
            assert(v@.take(b as int).last() == v@[b - 1]);
            assert(v@.take(b as int).drop_last() =~= v@.take(b - 1));
        }
        b = b - 1;
    }
    proof {
        assert(v@.take(b as int).last() == v@[b - 1]);
        if b == a + 1 {
            assert(!white_space(v@.take(b as int).last()));
        }
    }
    string_of(v, a, b)
}

/// When the last accepted send was at `last`, whether a send at `now` falls
/// inside the cooldown.
pub open spec fn in_cooldown(last: Option<u64>, now: u64) -> bool {
    match last {
        Some(t) => now < t + SEND_COOLDOWN_MS,
        None => false,
    }
}

/// Whether a send attempt at `now` of a buffer holding `text` goes out.
pub open spec fn send_accepted(last: Option<u64>, text: Seq<char>, now: u64) -> bool {
    !in_cooldown(last, now) && trimmed(text).len() > 0
}

/// When the last accepted send happened.
#[derive(Clone, Copy, Debug, PartialEq, Eq)]
pub struct SendThrottle {
    pub last_sent: Option<u64>,
}

impl SendThrottle {
    /// Nothing sent yet.
    pub fn new() -> (r: Self)
        ensures
            r.last_sent is None,
    {
        SendThrottle { last_sent: None }
    }

    /// A send attempt at `now_ms`: outside the cooldown and with something
    /// left after trimming, returns the trimmed message, empties the editor
    /// and records the time; otherwise changes nothing.
    pub fn try_send(&mut self, editor: &mut InputEditor, now_ms: u64) -> (r: Option<String>)
        requires
            old(editor).wf(),
        ensures
            final(editor).wf(),
            send_accepted(old(self).last_sent, old(editor).text(), now_ms) ==> r is Some && r->0@
                == trimmed(old(editor).text()) && final(editor).text() == Seq::<char>::empty()
                && final(editor).pos() == 0 && final(self).last_sent == Some(now_ms),
            !send_accepted(old(self).last_sent, old(editor).text(), now_ms) ==> r is None
                && *final(editor) == *old(editor) && *final(self) == *old(self),
    {
        if let Some(t) = self.last_sent {
            if now_ms < t || now_ms - t < SEND_COOLDOWN_MS {
                return None;
            }
        }
        let msg = trim_chars(editor.chars());
        if msg.as_str().is_empty() {
            return None;
        }
        editor.clear();
        self.last_sent = Some(now_ms);
        Some(msg)
    }
}

/// Once a send goes out, a second attempt less than `SEND_COOLDOWN_MS` later
/// sends nothing and leaves the buffer as it is, whatever it holds.
pub proof fn lemma_throttle(last: Option<u64>, text: Seq<char>, again: Seq<char>, t1: u64, t2: u64)
    requires
        send_accepted(last, text, t1),
        t1 <= t2 < t1 + SEND_COOLDOWN_MS,
    ensures
        !send_accepted(Some(t1), again, t2),
{
}

} // verus!
