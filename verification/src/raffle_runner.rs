//! Raffle cadence and drawing: a lazily initialized schedule, a configurable
//! interval and prize, and the draw itself, which snapshots the roster and
//! picks a winner deterministically from a seed.

use vstd::prelude::*;

use crate::amount::Amount;
use crate::participants::{ParticipantRegistry, ParticipantV};
use crate::timing::{Duration, Timestamp};

verus! {

/// The default time between raffles: four minutes.
pub const DEFAULT_RAFFLE_INTERVAL_MS: u64 = 240_000;

/// The mathematical value of a raffle result.
#[verifier::ext_equal]
pub ghost struct RaffleResultV {
    pub winner: Seq<char>,
    pub participants: Seq<Seq<char>>,
    pub prize: Amount,
    pub destination: Seq<u8>,
}

/// An immutable snapshot of one completed draw: the winner's name, the names
/// of everyone who was registered at draw time, the prize, and where to send
/// it.
#[derive(PartialEq, Eq, Debug)]
pub struct RaffleResult {
    pub winner: String,
    pub participants: Vec<String>,
    pub prize: Amount,
    pub destination: crate::account::Account,
}

impl View for RaffleResult {
    type V = RaffleResultV;

    open spec fn view(&self) -> RaffleResultV {
        RaffleResultV {
            winner: self.winner@,
            participants: self.participants.deep_view(),
            prize: self.prize,
            destination: self.destination@,
        }
    }
}

impl Clone for RaffleResult {
    fn clone(&self) -> (r: Self)
        ensures
            r@ == self@,
    {
        let mut participants: Vec<String> = Vec::new();
        let mut i: usize = 0;
        while i < self.participants.len()
            invariant
                i <= self.participants.len(),
                participants@.len() == i,
                forall|k: int|
                    0 <= k < i ==> #[trigger] participants@[k]@ == self.participants@[k]@,
            decreases self.participants.len() - i,
        {
            participants.push(self.participants[i].clone());
            i = i + 1;
        }
        let r = RaffleResult {
            winner: self.winner.clone(),
            participants,
            prize: self.prize,
            destination: self.destination.clone(),
        };
        proof {
            assert(r@.participants =~= self@.participants);
            assert(r@ =~= self@);
        }
        r
    }
}

/// What a due draw over a non-empty roster produces: the entry at
/// `seed mod n` of the channel-id-sorted roster wins, and the roster's names
/// are snapshotted in order.
pub open spec fn draw_result(ps: Seq<ParticipantV>, random: u32, prize: Amount) -> RaffleResultV {
    let w = ps[random as int % ps.len() as int];
    RaffleResultV {
        winner: w.name,
        participants: ps.map_values(|p: ParticipantV| p.name),
        prize,
        destination: w.account,
    }
}

/// Owns the raffle schedule, prize and interval, and performs due draws.
pub struct RaffleRunner {
    pub next_raffle: Option<Timestamp>,
    pub prize: Amount,
    pub interval: Duration,
}

impl Default for RaffleRunner {
    fn default() -> (r: Self)
        ensures
            r.next_raffle is None,
            r.prize.raw == 1 * crate::amount::RAW_PER_NANO,
            r.interval.millis == DEFAULT_RAFFLE_INTERVAL_MS,
    {
        RaffleRunner {
            next_raffle: None,
            prize: Amount::nano(1),
            interval: Duration::from_millis(DEFAULT_RAFFLE_INTERVAL_MS),
        }
    }
}

impl RaffleRunner {
    /// The schedule the runner works to at `now`: the stored time, or, before
    /// the first query of a cycle, one interval from now.
    pub open spec fn spec_next(&self, now: Timestamp) -> Timestamp {
        match self.next_raffle {
            None => Timestamp { millis: (now.millis + self.interval.millis) as u64 },
            Some(t) => t,
        }
    }

    /// Forget the schedule; the next query starts a fresh cycle.
    pub fn reset(&mut self)
        ensures
            final(self).next_raffle is None,
            final(self).prize == old(self).prize,
            final(self).interval == old(self).interval,
    {
        self.next_raffle = None;
    }

    pub fn set_prize(&mut self, prize: Amount)
        ensures
            final(self).prize == prize,
            final(self).next_raffle == old(self).next_raffle,
            final(self).interval == old(self).interval,
    {
        self.prize = prize;
    }

    /// The time of the next raffle, initializing the schedule to one interval
    /// from `now` on the first query of a cycle.
    pub fn next_raffle(&mut self, now: Timestamp) -> (r: Timestamp)
        requires
            old(self).next_raffle is None ==> now.millis + old(self).interval.millis <= u64::MAX,
        ensures
            r == old(self).spec_next(now),
            final(self).next_raffle == Some(r),
            final(self).prize == old(self).prize,
            final(self).interval == old(self).interval,
    {
        match self.next_raffle {
            None => {
                let next = now.plus(self.interval);
                self.next_raffle = Some(next);
                next
            },
            Some(next) => next,
        }
    }

    pub fn raffle_interval(&self) -> (r: Duration)
        ensures
            r == self.interval,
    {
        self.interval
    }

    pub fn set_raffle_interval(&mut self, interval: Duration)
        ensures
            final(self).interval == interval,
            final(self).next_raffle == old(self).next_raffle,
            final(self).prize == old(self).prize,
    {
        self.interval = interval;
    }

    /// Make the next tick draw: move the schedule to `now`.
    pub fn run_raffle_now(&mut self, now: Timestamp)
        ensures
            final(self).next_raffle == Some(now),
            final(self).prize == old(self).prize,
            final(self).interval == old(self).interval,
    {
        self.next_raffle = Some(now);
    }

    pub fn prize(&self) -> (r: Amount)
        ensures
            r == self.prize,
    {
        self.prize
    }

    /// Attempt a draw at `now`. Before the scheduled time nothing happens
    /// (beyond lazy schedule initialization). At or after it, the schedule
    /// advances to one interval from `now`; with at least one participant the
    /// draw produces a result, with none it silently reschedules.
    pub fn try_run_raffle(
        &mut self,
        participants: &ParticipantRegistry,
        now: Timestamp,
        random: u32,
    ) -> (r: Option<RaffleResult>)
        requires
            participants.wf(),
            now.millis + old(self).interval.millis <= u64::MAX,
        ensures
            final(self).prize == old(self).prize,
            final(self).interval == old(self).interval,
            now.millis < old(self).spec_next(now).millis ==> r is None && final(self).next_raffle
                == Some(old(self).spec_next(now)),
            now.millis >= old(self).spec_next(now).millis ==> final(self).next_raffle == Some(
                Timestamp { millis: (now.millis + old(self).interval.millis) as u64 },
            ),
            now.millis >= old(self).spec_next(now).millis && participants@.len() == 0 ==> r
                is None,
            now.millis >= old(self).spec_next(now).millis && participants@.len() > 0 ==> (
            r matches Some(res) && res@ == draw_result(
                participants@,
                random,
                old(self).prize,
            )),
    {
        let next_raffle = self.next_raffle(now);
        if !now.is_at_or_after(next_raffle) {
            return None;
        }
        self.next_raffle = Some(now.plus(self.interval));
        match participants.pick_random(random) {
            Some(winner) => {
                let list = participants.list();
                let mut names: Vec<String> = Vec::new();
                let mut i: usize = 0;
                while i < list.len()
                    invariant
                        i <= list.len(),
                        names@.len() == i,
                        forall|k: int| 0 <= k < i ==> #[trigger] names@[k]@ == list@[k]@.name,
                    decreases list.len() - i,
                {
                    names.push(list[i].name.clone());
                    i = i + 1;
                }
                let res = RaffleResult {
                    winner: winner.name,
                    participants: names,
                    prize: self.prize,
                    destination: winner.account,
                };
                proof {
                    assert(res@.participants =~= participants@.map_values(
                        |p: ParticipantV| p.name,
                    ));
                    assert(res@ =~= draw_result(participants@, random, self.prize));
                }
                Some(res)
            },
            None => None,
        }
    }
}

} // verus!
