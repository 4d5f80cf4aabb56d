//! The pool of eligible entrants: chat users who supplied a valid payout
//! address, deduplicated by channel id and kept sorted by it, so that random
//! selection is a pure function of the pool contents and a seed.

use vstd::prelude::*;
use vstd::string::StringExecFns;

use crate::account::{u64_key_bytes, Account};
use crate::strings::{lemma_lex_lt_trans, lemma_lex_total, lex_lt, str_lt};

verus! {

/// The mathematical value of a participant.
#[verifier::ext_equal]
pub ghost struct ParticipantV {
    pub channel_id: Seq<char>,
    pub name: Seq<char>,
    pub account: Seq<u8>,
}

/// An eligible entrant: identified by channel id, displayed by name, paid at
/// the account. Re-registration under the same channel id replaces name and
/// account.
#[derive(PartialEq, Eq, Debug)]
pub struct Participant {
    pub channel_id: String,
    pub name: String,
    pub account: Account,
}

impl View for Participant {
    type V = ParticipantV;

    open spec fn view(&self) -> ParticipantV {
        ParticipantV {
            channel_id: self.channel_id@,
            name: self.name@,
            account: self.account@,
        }
    }
}

impl DeepView for Participant {
    type V = ParticipantV;

    open spec fn deep_view(&self) -> ParticipantV {
        self.view()
    }
}

impl Clone for Participant {
    fn clone(&self) -> (r: Self)
        ensures
            r@ == self@,
    {
        Participant {
            channel_id: self.channel_id.clone(),
            name: self.name.clone(),
            account: self.account.clone(),
        }
    }
}

impl Participant {
    pub fn new_test_instance() -> (r: Participant)
        ensures
            r@.channel_id == "abc"@,
            r@.name == "John Doe"@,
            r@.account == u64_key_bytes(42),
    {
        Participant {
            channel_id: "abc".to_owned(),
            name: "John Doe".to_owned(),
            account: Account::from_u64(42),
        }
    }

    pub fn new_test_instance_for_channel(channel_id: String) -> (r: Participant)
        ensures
            r@.channel_id == channel_id@,
            r@.name == "name for "@ + channel_id@,
            r@.account == u64_key_bytes(42),
    {
        let name = "name for ".to_owned().concat(channel_id.as_str());
        Participant { name, channel_id, account: Account::from_u64(42) }
    }
}

/// Entries strictly sorted by channel id: sorted, and free of duplicates.
pub open spec fn sorted_by_channel_id(s: Seq<ParticipantV>) -> bool {
    forall|i: int, j: int|
        0 <= i < j < s.len() ==> lex_lt(#[trigger] s[i].channel_id, #[trigger] s[j].channel_id)
}

/// Where a channel id belongs in a sorted entry list: the first position
/// whose entry is not below it.
pub open spec fn insert_pos(s: Seq<ParticipantV>, cid: Seq<char>) -> int
    decreases s.len(),
{
    if s.len() == 0 {
        0
    } else if lex_lt(s[0].channel_id, cid) {
        1 + insert_pos(s.drop_first(), cid)
    } else {
        0
    }
}

/// A sorted entry list after an upsert: the entry with the same channel id is
/// replaced, or the new entry is inserted at its position.
pub open spec fn upserted(s: Seq<ParticipantV>, v: ParticipantV) -> Seq<ParticipantV> {
    let i = insert_pos(s, v.channel_id);
    if i < s.len() && s[i].channel_id == v.channel_id {
        s.update(i, v)
    } else {
        s.insert(i, v)
    }
}

/// `insert_pos` is exactly the boundary between entries below `cid` and the
/// rest.
proof fn lemma_insert_pos_from_bounds(s: Seq<ParticipantV>, cid: Seq<char>, i: int)
    requires
        0 <= i <= s.len(),
        forall|k: int| 0 <= k < i ==> lex_lt(#[trigger] s[k].channel_id, cid),
        i < s.len() ==> !lex_lt(s[i].channel_id, cid),
    ensures
        insert_pos(s, cid) == i,
    decreases s.len(),
{
    if i == 0 {
    } else {
        assert(lex_lt(s[0].channel_id, cid));
        lemma_insert_pos_from_bounds(s.drop_first(), cid, i - 1);
    }
}

/// The deduplicated registry of participants, sorted by channel id.
pub struct ParticipantRegistry {
    items: Vec<Participant>,
}

impl View for ParticipantRegistry {
    type V = Seq<ParticipantV>;

    closed spec fn view(&self) -> Seq<ParticipantV> {
        self.items.deep_view()
    }
}

impl Default for ParticipantRegistry {
    fn default() -> (r: Self)
        ensures
            r@ == Seq::<ParticipantV>::empty(),
            r.wf(),
    {
        let r = ParticipantRegistry { items: Vec::new() };
        proof {
            assert(r@ =~= Seq::<ParticipantV>::empty());
        }
        r
    }
}

impl ParticipantRegistry {
    /// Entries are strictly sorted by channel id, so channel ids are unique.
    pub open spec fn wf(&self) -> bool {
        sorted_by_channel_id(self@)
    }

    /// Register or re-register a participant, keyed by channel id.
    pub fn add(&mut self, participant: Participant)
        requires
            old(self).wf(),
        ensures
            final(self).wf(),
            final(self)@ == upserted(old(self)@, participant@),
    {
        let ghost s = self@;
        let ghost v = participant@;
        let mut i: usize = 0;
        while i < self.items.len() && str_lt(self.items[i].channel_id.as_str(),
            participant.channel_id.as_str())
            invariant
                self@ == s,
                self.items@.len() == s.len(),
                v == participant@,
                i <= s.len(),
                forall|k: int| 0 <= k < i ==> lex_lt(#[trigger] s[k].channel_id, v.channel_id),
            decreases s.len() - i,
        {
            i = i + 1;
        }
        proof {
            lemma_insert_pos_from_bounds(s, v.channel_id, i as int);
        }
        if i < self.items.len() && self.items[i].channel_id == participant.channel_id {
            self.items.set(i, participant);
            proof {
                assert(self@ =~= s.update(i as int, v));
                assert(final(self).wf()) by {
                    assert forall|p: int, q: int| 0 <= p < q < self@.len() implies lex_lt(
                        self@[p].channel_id,
                        self@[q].channel_id,
                    ) by {
                        assert(s[p].channel_id == self@[p].channel_id || (p == i && s[
                            p
                        ].channel_id == v.channel_id));
                        assert(s[q].channel_id == self@[q].channel_id || (q == i && s[
                            q
                        ].channel_id == v.channel_id));
                        assert(lex_lt(s[p].channel_id, s[q].channel_id));
                    }
                }
            }
        } else {
            proof {
                if i < s.len() {
                    lemma_lex_total(s[i as int].channel_id, v.channel_id);
                    assert(lex_lt(v.channel_id, s[i as int].channel_id));
                }
            }
            self.items.insert(i, participant);
            proof {
                assert(self@ =~= s.insert(i as int, v));
                assert(final(self).wf()) by {
                    assert forall|p: int, q: int| 0 <= p < q < self@.len() implies lex_lt(
                        self@[p].channel_id,
                        self@[q].channel_id,
                    ) by {
                        if q < i {
                            assert(lex_lt(s[p].channel_id, s[q].channel_id));
                        } else if p > i {
                            assert(lex_lt(s[p - 1].channel_id, s[q - 1].channel_id));
                        } else if p < i && q > i {
                            assert(lex_lt(s[p].channel_id, s[q - 1].channel_id));
                        } else if p == i {
                            // the new entry is below everything at and after i
                            if i < s.len() {
                                if q - 1 > i {
                                    lemma_lex_lt_trans(
                                        v.channel_id,
                                        s[i as int].channel_id,
                                        s[q - 1].channel_id,
                                    );
                                }
                            }
                        } else {
                            // q == i: everything before i is below the new entry
                        }
                    }
                }
            }
        }
    }

    /// How many participants are registered.
    pub fn len(&self) -> (r: usize)
        ensures
            r == self@.len(),
    {
        self.items.len()
    }

    /// All participants, sorted by channel id ascending, one entry per
    /// channel id.
    pub fn list(&self) -> (r: Vec<Participant>)
        requires
            self.wf(),
        ensures
            r.deep_view() == self@,
            r@.len() == self@.len(),
            sorted_by_channel_id(r.deep_view()),
    {
        let mut r: Vec<Participant> = Vec::new();
        let mut i: usize = 0;
        while i < self.items.len()
            invariant
                i <= self.items.len(),
                r@.len() == i,
                forall|k: int| 0 <= k < i ==> #[trigger] r@[k]@ == self.items@[k]@,
            decreases self.items.len() - i,
        {
            r.push(self.items[i].clone());
            i = i + 1;
        }
        proof {
            assert forall|k: int| 0 <= k < self@.len() implies r.deep_view()[k] == self@[k] by {
                assert(r@[k]@ == self.items@[k]@);
            }
            assert(r.deep_view() =~= self@);
        }
        r
    }

    /// Uniform deterministic selection: entry `seed mod n` of the sorted
    /// list, or nothing from an empty registry.
    pub fn pick_random(&self, random_val: u32) -> (r: Option<Participant>)
        requires
            self.wf(),
        ensures
            self@.len() == 0 ==> r is None,
            self@.len() > 0 ==> (r matches Some(p) && p@ == self@[random_val as int % self@.len() as int]),
    {
        let n = self.items.len();
        if n == 0 {
            return None;
        }
        let idx = (random_val as usize) % n;
        Some(self.items[idx].clone())
    }
}

} // verus!
