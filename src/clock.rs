//! Timestamps: the current time and how long ago a message was sent.

use vstd::prelude::*;
use crate::text::push_char;

verus! {

/// The decimal digits of `n`.
pub open spec fn decimal(n: nat) -> Seq<char>
    decreases n,
{
    if n < 10 {
        seq![(48 + n) as char]
    } else {
        decimal(n / 10).push((48 + n % 10) as char)
    }
}

/// Relies on `chrono::Utc::now` and `DateTime::timestamp`: the current time
/// as seconds since the Unix epoch (nothing is known of its value). chrono
/// panics here only if the machine's clock is set before 1970, which no
/// argument can rule out.
#[verifier::external_body]
pub(crate) fn now_unix() -> (r: i64) {
    chrono::Utc::now().timestamp()
}

/// Earliest and latest timestamps shown as a time of day: the years 1 to
/// 9999, where the local time zone's rules place every instant.
pub const CLOCK_MIN_TS: i64 = -62135596800;
pub const CLOCK_MAX_TS: i64 = 253402300799;

/// Relies on `chrono::TimeZone::timestamp_opt` on `chrono::Local` and
/// `format("%H:%M")`: the local hour and minute, each as two digits, joined
/// by a colon (`None` only where chrono cannot map the timestamp). The
/// zone lookup panics where it cannot place an instant, so the timestamp is
/// held to the years 1 to 9999.
#[verifier::external_body]
fn local_clock(ts: i64) -> (r: Option<String>)
    requires
        CLOCK_MIN_TS <= ts <= CLOCK_MAX_TS,
    ensures
        r matches Some(s) ==> s@.len() == 5,
{
    match chrono::TimeZone::timestamp_opt(&chrono::Local, ts, 0) {
        chrono::LocalResult::Single(dt) => Some(dt.format("%H:%M").to_string()),
        _ => None,
    }
}

/// The decimal digit `d`.
fn digit_char(d: u64) -> (c: char)
    requires
        d < 10,
    ensures
        c == (48 + d) as char,
{
    ((d as u8) + 48) as char
}

/// The decimal digits of `n`, without sign or padding.
pub fn decimal_string(n: u64) -> (r: String)
    ensures
        r@ == decimal(n as nat),
    decreases n,
{
    if n < 10 {
        let mut s = String::new();
        push_char(&mut s, digit_char(n));
        proof {
            assert(s@ =~= seq![(48 + n) as char]);
        }
        s
    } else {
        let mut s = decimal_string(n / 10);
        push_char(&mut s, digit_char(n % 10));
        s
    }
}

/// How long ago `ts` was at `now`, in seconds: "now" for no time or a time
/// ahead, then seconds, whole minutes and whole hours with a unit letter;
/// `None` from a day on.
pub open spec fn relative_label(ts: int, now: int) -> Option<Seq<char>> {
    let d = now - ts;
    if d <= 0 {
        Some(seq!['n', 'o', 'w'])
    } else if d < 60 {
        Some(decimal(d as nat).push('s'))
    } else if d < 3600 {
        Some(decimal((d / 60) as nat).push('m'))
    } else if d < 86400 {
        Some(decimal((d / 3600) as nat).push('h'))
    } else {
        None
    }
}

/// The label for a message sent at `ts`, seen at `now`, when it is under a
/// day old.
pub fn relative_time_at(ts: i64, now: i64) -> (r: Option<String>)
    ensures
        r matches Some(s) ==> relative_label(ts as int, now as int) == Some(s@),
        r is None ==> relative_label(ts as int, now as int) is None,
{
    let d: i128 = now as i128 - ts as i128;
    if d <= 0 {
        let mut s = String::new();
        push_char(&mut s, 'n');
        push_char(&mut s, 'o');
        push_char(&mut s, 'w');
        proof {
            assert(s@ =~= seq!['n', 'o', 'w']);
        }
        return Some(s);
    }
    let (n, unit): (i64, char) = if d < 60 {
        (d as i64, 's')
    } else if d < 3600 {
        ((d / 60) as i64, 'm')
    } else if d < 86400 {
        ((d / 3600) as i64, 'h')
    } else {
        return None;
    };
    let mut s = decimal_string(n as u64);
    push_char(&mut s, unit);
    Some(s)
}

/// The label for a message sent at `ts`, as of now: under a day, as
/// `relative_time_at` gives it; from a day on, the local time of day as
/// `HH:MM` (`--:--` outside the years 1 to 9999).
pub fn relative_time(ts: i64) -> (r: String)
    ensures
        (exists|now: i64| relative_label(ts as int, now as int) == Some(r@)) || r@.len() == 5,
{
    let now = now_unix();
    match relative_time_at(ts, now) {
        Some(s) => s,
        None => match if CLOCK_MIN_TS <= ts && ts <= CLOCK_MAX_TS {
            local_clock(ts)
        } else {
            None
        } {
            Some(c) => c,
            None => {
                let mut s = String::new();
                push_char(&mut s, '-');
                push_char(&mut s, '-');
                push_char(&mut s, ':');
                push_char(&mut s, '-');
                push_char(&mut s, '-');
                s
            },
        },
    }
}

} // verus!
