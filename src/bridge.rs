//! The socket bridge's decisions: what an inbound frame becomes and which
//! outbound messages go on the wire.

use vstd::prelude::*;
use crate::clock::now_unix;
use crate::model::ChatMessage;
use crate::send::{trim_chars, trimmed};
use crate::text::chars_of;

verus! {

/// The message an inbound frame becomes at time `now`: the decoded message
/// where the frame decoded, else a message from "system" holding the raw
/// frame, with the fallback icon and `now` as its time.
pub fn inbound_message(decoded: Option<ChatMessage>, raw: &str, now: i64) -> (r: ChatMessage)
    ensures
        decoded matches Some(m) ==> r == m,
        decoded is None ==> r.user@ == "system"@ && r.content@ == raw@ && r.icon is Some
            && r.icon->0@ == "\u{f06a9}"@ && r.timestamp == Some(now),
{
    match decoded {
        Some(m) => m,
        None => ChatMessage {
            user: "system".to_owned(),
            icon: Some("\u{f06a9}".to_owned()),
            content: raw.to_owned(),
            timestamp: Some(now),
        },
    }
}

/// The message an inbound frame becomes as it arrives: as
/// `inbound_message`, stamped with the current time when it did not decode.
pub fn receive_frame(decoded: Option<ChatMessage>, raw: &str) -> (r: ChatMessage)
    ensures
        decoded matches Some(m) ==> r == m,
        decoded is None ==> r.user@ == "system"@ && r.content@ == raw@ && r.icon is Some
            && r.icon->0@ == "\u{f06a9}"@ && r.timestamp is Some,
{
    let now = now_unix();
    inbound_message(decoded, raw, now)
}

/// Whether an outbound message goes on the wire: only if it is not blank.
pub fn outbound_frame(msg: &str) -> (r: bool)
    ensures
        r == (trimmed(msg@).len() > 0),
{
    let chars = chars_of(msg);
    let t = trim_chars(&chars);
    !t.as_str().is_empty()
}

} // verus!
