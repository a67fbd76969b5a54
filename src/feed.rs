//! The message feed: arrival-ordered messages, the oldest dropped beyond a
//! fixed capacity.

use vstd::prelude::*;
use crate::model::ChatMessage;

verus! {

/// Most messages the feed keeps.
pub const FEED_CAPACITY: usize = 1000;

/// The last `n` elements of `s` (all of them when there are fewer).
pub open spec fn keep_last<T>(s: Seq<T>, n: nat) -> Seq<T> {
    if s.len() > n {
        s.subrange(s.len() - n, s.len() as int)
    } else {
        s
    }
}

/// Messages in arrival order, at most `FEED_CAPACITY` of them.
pub struct MessageFeed {
    items: Vec<ChatMessage>,
    history: Ghost<Seq<ChatMessage>>,
}

impl MessageFeed {
    /// The messages held, oldest first.
    pub closed spec fn messages(&self) -> Seq<ChatMessage> {
        self.items@
    }

    /// Every message pushed since the feed was made, oldest first.
    pub closed spec fn pushed(&self) -> Seq<ChatMessage> {
        self.history@
    }

    /// The feed holds the last `FEED_CAPACITY` messages pushed.
    pub open spec fn wf(&self) -> bool {
        &&& self.messages().len() <= FEED_CAPACITY
        &&& self.messages() == keep_last(self.pushed(), FEED_CAPACITY as nat)
    }

    /// An empty feed.
    pub fn new() -> (r: Self)
        ensures
            r.wf(),
            r.messages() == Seq::<ChatMessage>::empty(),
            r.pushed() == Seq::<ChatMessage>::empty(),
    {
        MessageFeed { items: Vec::new(), history: Ghost(Seq::empty()) }
    }

    /// Appends `msg`, then drops the oldest messages until at most
    /// `FEED_CAPACITY` remain.
    pub fn push(&mut self, msg: ChatMessage)
        requires
            old(self).wf(),
        ensures
            final(self).wf(),
            final(self).messages() == keep_last(old(self).messages().push(msg), FEED_CAPACITY as nat),
            final(self).pushed() == old(self).pushed().push(msg),
    {
        proof {
            lemma_keep_last_push(self.history@, msg, FEED_CAPACITY as nat);
        }
        self.history = Ghost(self.history@.push(msg));
        let ghost pushed = self.items@.push(msg);
        self.items.push(msg);
        if self.items.len() > FEED_CAPACITY {
            self.items.remove(0);
            proof {
                assert(self.items@ =~= pushed.subrange(pushed.len() - FEED_CAPACITY, pushed.len() as int));
            }
        }
    }

    /// The messages held, oldest first.
    pub fn messages_vec(&self) -> (r: &Vec<ChatMessage>)
        ensures
            r@ == self.messages(),
    {
        &self.items
    }

    /// Number of messages held.
    pub fn len(&self) -> (r: usize)
        ensures
            r == self.messages().len(),
    {
        self.items.len()
    }
}

proof fn lemma_keep_last_push(p: Seq<ChatMessage>, x: ChatMessage, n: nat)
    requires
        n > 0,
    ensures
        keep_last(keep_last(p, n).push(x), n) == keep_last(p.push(x), n),
{
    let q = p.push(x);
    if p.len() > n {
        let k = keep_last(p, n).push(x);
        assert(keep_last(k, n) =~= keep_last(q, n));
    } else {
        assert(keep_last(p, n) == p);
    }
}

/// Whatever was pushed, the feed holds at most `FEED_CAPACITY` messages, and
/// they are exactly the most recent ones pushed, in the order they came.
pub proof fn lemma_feed_keeps_latest(f: &MessageFeed)
    requires
        f.wf(),
    ensures
        f.messages().len() <= FEED_CAPACITY,
        f.messages() == keep_last(f.pushed(), FEED_CAPACITY as nat),
{
}

} // verus!
