//! What the display overlay is told when it polls: whether to spin, over
//! which roster, and which entry wins. The transport around it lives outside
//! the library.

use vstd::prelude::*;

use crate::logic::{result_has_winner, spin_view, RaffleLogic, SpinState};
use crate::raffle_runner::RaffleResult;
use crate::timing::Timestamp;

verus! {

/// One poll answer for the overlay. While a win awaits confirmation: spin
/// over the drawn roster, stopping on the winner's index. Otherwise: no
/// spin, an empty roster.
#[derive(PartialEq, Eq, Debug)]
pub struct SpinInstruction {
    pub spin: bool,
    pub participants: Vec<String>,
    pub winner: usize,
}

impl RaffleLogic {
    /// Answer one overlay poll, recording it as a liveness ping. The winner
    /// index is the first roster entry carrying the winner's name.
    pub fn spin_instruction(&mut self, now: Timestamp) -> (r: SpinInstruction)
        requires
            old(self).wf(),
        ensures
            final(self).wf(),
            final(self).last_ping == Some(now),
            final(self).latest_messages == old(self).latest_messages,
            final(self).participants == old(self).participants,
            final(self).raffle_runner == old(self).raffle_runner,
            final(self).announcement == old(self).announcement,
            spin_view(final(self).spin_state) == spin_view(old(self).spin_state),
            final(self).running == old(self).running,
            final(self).winners == old(self).winners,
            match old(self).spin_state {
                SpinState::Spinning(w) => r.spin && r.participants.deep_view() == w@.participants
                    && r.winner < w@.participants.len() && w@.participants[r.winner as int]
                    == w@.winner && (forall|k: int|
                    0 <= k < r.winner ==> w@.participants[k] != w@.winner),
                _ => !r.spin && r.participants.deep_view() == Seq::<Seq<char>>::empty()
                    && r.winner == 0,
            },
    {
        self.ping(now);
        let win: Option<RaffleResult> = match &self.spin_state {
            SpinState::Spinning(w) => Some(w.clone()),
            _ => None,
        };
        match win {
            Some(w) => {
                let mut i: usize = 0;
                while i < w.participants.len()
                    invariant_except_break
                        i <= w.participants.len(),
                        result_has_winner(w@),
                        forall|k: int| 0 <= k < i ==> w@.participants[k] != w@.winner,
                    ensures
                        i < w.participants@.len(),
                        w@.participants[i as int] == w@.winner,
                        forall|k: int| 0 <= k < i ==> w@.participants[k] != w@.winner,
                    decreases w.participants.len() - i,
                {
                    if w.participants[i] == w.winner {
                        break ;
                    }
                    i = i + 1;
                }
                SpinInstruction { spin: true, participants: w.participants, winner: i }
            },
            None => {
                let r = SpinInstruction { spin: false, participants: Vec::new(), winner: 0 };
                proof {
                    assert(r.participants.deep_view() =~= Seq::<Seq<char>>::empty());
                }
                r
            },
        }
    }
}

} // verus!
