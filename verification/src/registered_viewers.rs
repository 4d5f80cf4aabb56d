//! The registered viewers eligible for a draw: chat users who supplied a
//! valid payout address, deduplicated by channel id and kept sorted by it,
//! so that random selection is a pure function of the pool and a seed.

use vstd::prelude::*;
use vstd::string::StringExecFns;

use crate::account::{u64_key_bytes, Account};
use crate::strings::{lemma_lex_lt_trans, lemma_lex_total, lex_lt, str_lt};

verus! {

/// The mathematical value of a registered viewer.
#[verifier::ext_equal]
pub ghost struct RegisteredViewerV {
    pub channel_id: Seq<char>,
    pub name: Seq<char>,
    pub account: Seq<u8>,
}

/// An eligible entrant: identified by channel id, displayed by name, paid at
/// the account. Re-registration under the same channel id replaces name and
/// account.
#[derive(PartialEq, Eq, Debug)]
pub struct RegisteredViewer {
    pub channel_id: String,
    pub name: String,
    pub account: Account,
}

impl View for RegisteredViewer {
    type V = RegisteredViewerV;

    open spec fn view(&self) -> RegisteredViewerV {
        RegisteredViewerV {
            channel_id: self.channel_id@,
            name: self.name@,
            account: self.account@,
        }
    }
}

impl DeepView for RegisteredViewer {
    type V = RegisteredViewerV;

    open spec fn deep_view(&self) -> RegisteredViewerV {
        self.view()
    }
}

impl Clone for RegisteredViewer {
    fn clone(&self) -> (r: Self)
        ensures
            r@ == self@,
    {
        RegisteredViewer {
            channel_id: self.channel_id.clone(),
            name: self.name.clone(),
            account: self.account.clone(),
        }
    }
}

impl RegisteredViewer {
    pub fn new_test_instance() -> (r: RegisteredViewer)
        ensures
            r@.channel_id == "abc"@,
            r@.name == "John Doe"@,
            r@.account == u64_key_bytes(42),
    {
        RegisteredViewer {
            channel_id: "abc".to_owned(),
            name: "John Doe".to_owned(),
            account: Account::from_u64(42),
        }
    }

    pub fn new_test_instance_for_channel(channel_id: String) -> (r: RegisteredViewer)
        ensures
            r@.channel_id == channel_id@,
            r@.name == "name for "@ + channel_id@,
            r@.account == u64_key_bytes(42),
    {
        let name = "name for ".to_owned().concat(channel_id.as_str());
        RegisteredViewer { name, channel_id, account: Account::from_u64(42) }
    }
}

/// Entries strictly sorted by channel id: sorted, and free of duplicates.
pub open spec fn sorted_by_channel_id(s: Seq<RegisteredViewerV>) -> bool {
    forall|i: int, j: int|
        0 <= i < j < s.len() ==> lex_lt(#[trigger] s[i].channel_id, #[trigger] s[j].channel_id)
}

/// Where a channel id belongs in a sorted entry list: the first position
/// whose entry is not below it.
pub open spec fn insert_pos(s: Seq<RegisteredViewerV>, cid: Seq<char>) -> int
    decreases s.len(),
{
    if s.len() == 0 {
        0
    } else if lex_lt(s[0].channel_id, cid) {
        1 + insert_pos(s.drop_first(), cid)
    } else {
        0
    }
}

/// A sorted entry list after an upsert: the entry with the same channel id is
/// replaced, or the new entry is inserted at its position.
pub open spec fn upserted(s: Seq<RegisteredViewerV>, v: RegisteredViewerV) -> Seq<RegisteredViewerV> {
    let i = insert_pos(s, v.channel_id);
    if i < s.len() && s[i].channel_id == v.channel_id {
        s.update(i, v)
    } else {
        s.insert(i, v)
    }
}

/// `insert_pos` is exactly the boundary between entries below `cid` and the
/// rest.
proof fn lemma_insert_pos_from_bounds(s: Seq<RegisteredViewerV>, cid: Seq<char>, i: int)
    requires
        0 <= i <= s.len(),
        forall|k: int| 0 <= k < i ==> lex_lt(#[trigger] s[k].channel_id, cid),
        i < s.len() ==> !lex_lt(s[i].channel_id, cid),
    ensures
        insert_pos(s, cid) == i,
    decreases s.len(),
{
    if i == 0 {
    } else {
        assert(lex_lt(s[0].channel_id, cid));
        lemma_insert_pos_from_bounds(s.drop_first(), cid, i - 1);
    }
}

/// The deduplicated registry of viewers, sorted by channel id.
pub struct ViewerRegistry {
    items: Vec<RegisteredViewer>,
}

impl View for ViewerRegistry {
    type V = Seq<RegisteredViewerV>;

    closed spec fn view(&self) -> Seq<RegisteredViewerV> {
        self.items.deep_view()
    }
}

impl Default for ViewerRegistry {
    fn default() -> (r: Self)
        ensures
            r@ == Seq::<RegisteredViewerV>::empty(),
            r.wf(),
    {
        let r = ViewerRegistry { items: Vec::new() };
        proof {
            assert(r@ =~= Seq::<RegisteredViewerV>::empty());
        }
        r
    }
}

impl ViewerRegistry {
    /// Entries are strictly sorted by channel id, so channel ids are unique.
    pub open spec fn wf(&self) -> bool {
        sorted_by_channel_id(self@)
    }

    /// Register or re-register a viewer, keyed by channel id.
    pub fn add(&mut self, viewer: RegisteredViewer)
        requires
            old(self).wf(),
        ensures
            final(self).wf(),
            final(self)@ == upserted(old(self)@, viewer@),
    {
        let ghost s = self@;
        let ghost v = viewer@;
        let mut i: usize = 0;
        while i < self.items.len() && str_lt(self.items[i].channel_id.as_str(),
            viewer.channel_id.as_str())
            invariant
                self@ == s,
                self.items@.len() == s.len(),
                v == viewer@,
                i <= s.len(),
                forall|k: int| 0 <= k < i ==> lex_lt(#[trigger] s[k].channel_id, v.channel_id),
            decreases s.len() - i,
        {
            i = i + 1;
        }
        proof {
            lemma_insert_pos_from_bounds(s, v.channel_id, i as int);
        }
        if i < self.items.len() && self.items[i].channel_id == viewer.channel_id {
            self.items.set(i, viewer);
            proof {
                assert(self@ =~= s.update(i as int, v));
                assert(final(self).wf()) by {
                    assert forall|p: int, q: int| 0 <= p < q < self@.len() implies lex_lt(
                        self@[p].channel_id,
                        self@[q].channel_id,
                    ) by {
                        assert(s[p].channel_id == self@[p].channel_id || (p == i && s[
                            p
                        ].channel_id == v.channel_id));
                        assert(s[q].channel_id == self@[q].channel_id || (q == i && s[
                            q
                        ].channel_id == v.channel_id));
                        assert(lex_lt(s[p].channel_id, s[q].channel_id));
                    }
                }
            }
        } else {
            proof {
                if i < s.len() {
                    lemma_lex_total(s[i as int].channel_id, v.channel_id);
                    assert(lex_lt(v.channel_id, s[i as int].channel_id));
                }
            }
            self.items.insert(i, viewer);
            proof {
                assert(self@ =~= s.insert(i as int, v));
                assert(final(self).wf()) by {
                    assert forall|p: int, q: int| 0 <= p < q < self@.len() implies lex_lt(
                        self@[p].channel_id,
                        self@[q].channel_id,
                    ) by {
                        if q < i {
                            assert(lex_lt(s[p].channel_id, s[q].channel_id));
                        } else if p > i {
                            assert(lex_lt(s[p - 1].channel_id, s[q - 1].channel_id));
                        } else if p < i && q > i {
                            assert(lex_lt(s[p].channel_id, s[q - 1].channel_id));
                        } else if p == i {
                            // the new entry is below everything at and after i
                            if i < s.len() {
                                if q - 1 > i {
                                    lemma_lex_lt_trans(
                                        v.channel_id,
                                        s[i as int].channel_id,
                                        s[q - 1].channel_id,
                                    );
                                }
                            }
                        } else {
                            // q == i: everything before i is below the new entry
                        }
                    }
                }
            }
        }
    }

    /// How many viewers are registered.
    pub fn len(&self) -> (r: usize)
        ensures
            r == self@.len(),
    {
        self.items.len()
    }

    /// All viewers, sorted by channel id ascending, one entry per
    /// channel id.
    pub fn list(&self) -> (r: Vec<RegisteredViewer>)
        requires
            self.wf(),
        ensures
            r.deep_view() == self@,
            r@.len() == self@.len(),
            sorted_by_channel_id(r.deep_view()),
    {
        let mut r: Vec<RegisteredViewer> = Vec::new();
        let mut i: usize = 0;
        while i < self.items.len()
            invariant
                i <= self.items.len(),
                r@.len() == i,
                forall|k: int| 0 <= k < i ==> #[trigger] r@[k]@ == self.items@[k]@,
            decreases self.items.len() - i,
        {
            r.push(self.items[i].clone());
            i = i + 1;
        }
        proof {
            assert forall|k: int| 0 <= k < self@.len() implies r.deep_view()[k] == self@[k] by {
                assert(r@[k]@ == self.items@[k]@);
            }
            assert(r.deep_view() =~= self@);
        }
        r
    }

    /// Uniform deterministic selection: entry `seed mod n` of the sorted
    /// list, or nothing from an empty registry.
    pub fn pick_random(&self, random_val: u32) -> (r: Option<RegisteredViewer>)
        requires
            self.wf(),
        ensures
            self@.len() == 0 ==> r is None,
            self@.len() > 0 ==> (r matches Some(p) && p@ == self@[random_val as int % self@.len() as int]),
    {
        let n = self.items.len();
        if n == 0 {
            return None;
        }
        let idx = (random_val as usize) % n;
        Some(self.items[idx].clone())
    }
}

} // verus!
