//! A bounded buffer of the most recent chat messages, oldest first; the
//! oldest entry is evicted on overflow.

use vstd::prelude::*;

use crate::chat::{ChatMessage, ChatMessageV};

verus! {

/// How many messages the buffer retains.
pub const MAX_MESSAGES: usize = 30;

/// What a bounded buffer holds after one more message: the message is
/// appended, and the oldest entry leaves if the buffer was full.
pub open spec fn buffer_push(s: Seq<ChatMessageV>, m: ChatMessageV) -> Seq<ChatMessageV> {
    if s.len() < MAX_MESSAGES {
        s.push(m)
    } else {
        s.push(m).drop_first()
    }
}

/// The most recent chat messages, oldest first, at most `MAX_MESSAGES` of
/// them: the oldest is evicted on overflow.
pub struct LatestChatMessages {
    items: Vec<ChatMessage>,
}

impl View for LatestChatMessages {
    type V = Seq<ChatMessageV>;

    closed spec fn view(&self) -> Seq<ChatMessageV> {
        self.items.deep_view()
    }
}

impl Default for LatestChatMessages {
    fn default() -> (r: Self)
        ensures
            r@ == Seq::<ChatMessageV>::empty(),
    {
        let r = LatestChatMessages { items: Vec::new() };
        proof {
            assert(r@ =~= Seq::<ChatMessageV>::empty());
        }
        r
    }
}

impl LatestChatMessages {
    /// The buffer never exceeds its bound.
    pub open spec fn wf(&self) -> bool {
        self@.len() <= MAX_MESSAGES
    }

    /// Append a message, evicting the oldest when full.
    pub fn add(&mut self, message: ChatMessage)
        requires
            old(self).wf(),
        ensures
            final(self).wf(),
            final(self)@ == buffer_push(old(self)@, message@),
    {
        let ghost m = message@;
        self.items.push(message);
        proof {
            assert(self.items.deep_view() =~= old(self)@.push(m));
        }
        if self.items.len() > MAX_MESSAGES {
            let ghost before = self.items.deep_view();
            self.items.remove(0);
            proof {
                assert(self.items.deep_view() =~= before.drop_first());
            }
        }
    }

    /// The buffered messages, oldest first.
    pub fn iter(&self) -> (r: Vec<ChatMessage>)
        ensures
            r.deep_view() == self@,
            r@.len() == self@.len(),
    {
        let mut r: Vec<ChatMessage> = Vec::new();
        let mut i: usize = 0;
        while i < self.items.len()
            invariant
                i <= self.items.len(),
                r@.len() == i,
                forall|k: int| 0 <= k < i ==> #[trigger] r@[k]@ == self.items@[k]@,
            decreases self.items.len() - i,
        {
            r.push(self.items[i].clone());
            i = i + 1;
        }
        proof {
            assert forall|k: int| 0 <= k < self@.len() implies r.deep_view()[k] == self@[k] by {
                assert(r@[k]@ == self.items@[k]@);
            }
            assert(r.deep_view() =~= self@);
        }
        r
    }
}

} // verus!
