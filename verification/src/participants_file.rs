//! Change tracking for the persisted participant snapshot: the library
//! decides, by set equality, whether the roster differs from what was last
//! written; reading and writing the file itself is the caller's side effect.

use vstd::prelude::*;

use crate::participants::{Participant, ParticipantV};

verus! {

fn participant_eq(a: &Participant, b: &Participant) -> (r: bool)
    ensures
        r == (a@ == b@),
{
    let r = a.channel_id == b.channel_id && a.name == b.name && a.account.eq_bytes(&b.account);
    proof {
        if r {
            assert(a@ =~= b@);
        }
    }
    r
}

fn contains_participant(v: &Vec<Participant>, p: &Participant) -> (r: bool)
    ensures
        r == v.deep_view().contains(p@),
{
    let mut i: usize = 0;
    while i < v.len()
        invariant
            i <= v.len(),
            forall|k: int| 0 <= k < i ==> v.deep_view()[k] != p@,
        decreases v.len() - i,
    {
        if participant_eq(&v[i], p) {
            proof {
                assert(v.deep_view()[i as int] == p@);
            }
            return true;
        }
        i = i + 1;
    }
    false
}

fn all_contained(a: &Vec<Participant>, b: &Vec<Participant>) -> (r: bool)
    ensures
        r == forall|k: int|
            0 <= k < a.deep_view().len() ==> b.deep_view().contains(#[trigger] a.deep_view()[k]),
{
    let mut i: usize = 0;
    while i < a.len()
        invariant
            i <= a.len(),
            forall|k: int| 0 <= k < i ==> b.deep_view().contains(#[trigger] a.deep_view()[k]),
        decreases a.len() - i,
    {
        if !contains_participant(b, &a[i]) {
            proof {
                assert(!b.deep_view().contains(a.deep_view()[i as int]));
            }
            return false;
        }
        i = i + 1;
    }
    true
}

/// Whether two rosters hold the same participants, in any order.
fn same_participant_set(a: &Vec<Participant>, b: &Vec<Participant>) -> (r: bool)
    ensures
        r == (a.deep_view().to_set() == b.deep_view().to_set()),
{
    let ab = all_contained(a, b);
    let ba = all_contained(b, a);
    proof {
        let sa = a.deep_view();
        let sb = b.deep_view();
        if ab && ba {
            assert forall|x: ParticipantV| sa.to_set().contains(x) implies sb.to_set().contains(
                x,
            ) by {
                let k = choose|k: int| 0 <= k < sa.len() && sa[k] == x;
                assert(sb.contains(sa[k]));
            }
            assert forall|x: ParticipantV| sb.to_set().contains(x) implies sa.to_set().contains(
                x,
            ) by {
                let k = choose|k: int| 0 <= k < sb.len() && sb[k] == x;
                assert(sa.contains(sb[k]));
            }
            assert(sa.to_set() =~= sb.to_set());
        } else if !ab {
            let k = choose|k: int| 0 <= k < sa.len() && !sb.contains(#[trigger] sa[k]);
            assert(sa.to_set().contains(sa[k]));
            assert(!sb.to_set().contains(sa[k]));
        } else {
            let k = choose|k: int| 0 <= k < sb.len() && !sa.contains(#[trigger] sb[k]);
            assert(sb.to_set().contains(sb[k]));
            assert(!sa.to_set().contains(sb[k]));
        }
    }
    ab && ba
}

/// Remembers what roster was last written out, and hands back a roster to
/// write exactly when it changed as a set.
pub struct ParticipantsFile {
    pub last_saved: Vec<Participant>,
}

impl Default for ParticipantsFile {
    fn default() -> (r: Self)
        ensures
            r.last_saved@.len() == 0,
    {
        ParticipantsFile { last_saved: Vec::new() }
    }
}

impl ParticipantsFile {
    /// Record a roster read back from storage as the last written state.
    pub fn record_loaded(&mut self, participants: Vec<Participant>)
        ensures
            final(self).last_saved == participants,
    {
        self.last_saved = participants;
    }

    /// Offer a fresh roster: when it differs, as a set, from the last saved
    /// one, it becomes the new saved state and a copy is returned for the
    /// caller to write out; otherwise nothing needs saving.
    pub fn update(&mut self, participants: Vec<Participant>) -> (r: Option<Vec<Participant>>)
        ensures
            old(self).last_saved.deep_view().to_set() == participants.deep_view().to_set() ==> r
                is None && final(self).last_saved == old(self).last_saved,
            old(self).last_saved.deep_view().to_set() != participants.deep_view().to_set() ==> (
            final(self).last_saved.deep_view() == participants.deep_view() && (r matches Some(v)
                && v.deep_view() == participants.deep_view())),
    {
        if same_participant_set(&self.last_saved, &participants) {
            return None;
        }
        let mut copy: Vec<Participant> = Vec::new();
        let mut i: usize = 0;
        while i < participants.len()
            invariant
                i <= participants.len(),
                copy@.len() == i,
                forall|k: int| 0 <= k < i ==> #[trigger] copy@[k]@ == participants@[k]@,
            decreases participants.len() - i,
        {
            copy.push(participants[i].clone());
            i = i + 1;
        }
        proof {
            assert forall|k: int|
                0 <= k < participants@.len() implies copy.deep_view()[k] == participants.deep_view()[k] by {
                assert(copy@[k]@ == participants@[k]@);
            }
            assert(copy.deep_view() =~= participants.deep_view());
        }
        self.last_saved = participants;
        Some(copy)
    }
}

} // verus!
