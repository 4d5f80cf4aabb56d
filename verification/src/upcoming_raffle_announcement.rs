//! The single pre-raffle warning: within a fixed offset before raffle time,
//! one notification per cycle, re-armed when a cycle completes.

use vstd::prelude::*;

use crate::logic::{Action, ActionV};
use crate::timing::{Duration, Timestamp};

verus! {

/// How long before raffle time the warning fires: ten seconds.
pub const ANNOUNCEMENT_OFFSET_MS: u64 = 10_000;

/// The text of the warning.
pub open spec fn announcement_text() -> Seq<char> {
    "Get ready! The next raffle starts in 10 seconds..."@
}

/// A tick at `now` is within the announcement window of a raffle scheduled
/// at `next_raffle`.
pub open spec fn in_announcement_window(next_raffle: Timestamp, now: Timestamp) -> bool {
    now.millis + ANNOUNCEMENT_OFFSET_MS >= next_raffle.millis
}

/// A tick announces when it is in the window and this cycle has not yet
/// announced.
pub open spec fn should_announce(made: bool, next_raffle: Timestamp, now: Timestamp) -> bool {
    !made && in_announcement_window(next_raffle, now)
}

/// Emits one "get ready" notification per raffle cycle, within the offset
/// before the scheduled time.
pub struct UpcomingRaffleAnnouncement {
    pub announcement_made: bool,
}

impl Default for UpcomingRaffleAnnouncement {
    fn default() -> (r: Self)
        ensures
            !r.announcement_made,
    {
        UpcomingRaffleAnnouncement { announcement_made: false }
    }
}

impl UpcomingRaffleAnnouncement {
    /// A raffle cycle completed: the next cycle may announce again.
    pub fn raffle_completed(&mut self)
        ensures
            !final(self).announcement_made,
    {
        self.announcement_made = false;
    }

    pub fn offset(&self) -> (r: Duration)
        ensures
            r.millis == ANNOUNCEMENT_OFFSET_MS,
    {
        Duration::from_millis(ANNOUNCEMENT_OFFSET_MS)
    }

    /// Within the offset before `next_raffle`, and not yet announced this
    /// cycle: one notification, and the cycle is marked announced. Otherwise
    /// nothing. Ticks strictly before the window never announce; repeated
    /// ticks after an announcement stay silent until `raffle_completed`.
    pub fn tick(&mut self, next_raffle: Timestamp, now: Timestamp) -> (r: Vec<Action>)
        ensures
            final(self).announcement_made == (old(self).announcement_made
                || in_announcement_window(next_raffle, now)),
            r.deep_view() == if should_announce(old(self).announcement_made, next_raffle, now) {
                seq![ActionV::Notify(announcement_text())]
            } else {
                Seq::<ActionV>::empty()
            },
    {
        let mut actions: Vec<Action> = Vec::new();
        let in_window = (now.millis as u128) + (ANNOUNCEMENT_OFFSET_MS as u128)
            >= (next_raffle.millis as u128);
        if in_window && !self.announcement_made {
            actions.push(
                Action::Notify("Get ready! The next raffle starts in 10 seconds...".to_owned()),
            );
            self.announcement_made = true;
        }
        proof {
            if should_announce(old(self).announcement_made, next_raffle, now) {
                assert(actions.deep_view() =~= seq![ActionV::Notify(announcement_text())]);
            } else {
                assert(actions.deep_view() =~= Seq::<ActionV>::empty());
            }
        }
        actions
    }
}

/// The announcement fires at most once per cycle: once a tick has announced,
/// every further tick of the same cycle (any later time, the flag still set)
/// stays silent until `raffle_completed` re-arms it.
pub proof fn lemma_announce_once_per_cycle(
    made: bool,
    next_raffle: Timestamp,
    now1: Timestamp,
    now2: Timestamp,
)
    requires
        should_announce(made, next_raffle, now1),
    ensures
        !should_announce(made || in_announcement_window(next_raffle, now1), next_raffle, now2),
{
}

} // verus!
