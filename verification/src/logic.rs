//! The raffle orchestrator: registry, runner and announcement scheduler
//! behind one `tick` entry point that returns the side effects for the
//! caller to execute, plus the two-phase win-confirmation handshake with the
//! external spinner display.

use vstd::prelude::*;
use vstd::string::StringExecFns;

use crate::account::account_decode;
use crate::amount::{balance_text, Amount};
use crate::chat::{buffer_push, ChatMessage, ChatMessageV, LatestChatMessages};
use crate::participants::{upserted, Participant, ParticipantRegistry, ParticipantV};
use crate::raffle_runner::{draw_result, RaffleResult, RaffleResultV, RaffleRunner};
use crate::strings::words_of;
use crate::timing::{Duration, Timestamp};
use crate::upcoming_raffle_announcement::{
    announcement_text, in_announcement_window, should_announce, UpcomingRaffleAnnouncement,
};

verus! {

/// How recently the spinner must have polled to count as connected.
pub const LIVENESS_WINDOW_MS: u64 = 3_000;

/// The mathematical value of a winner notice.
#[verifier::ext_equal]
pub ghost struct WinnerV {
    pub name: Seq<char>,
    pub prize: Amount,
    pub account: Seq<u8>,
}

/// A winner to be paid: name, prize, and payout account.
#[derive(PartialEq, Eq, Debug)]
pub struct Winner {
    pub name: String,
    pub prize: Amount,
    pub account: crate::account::Account,
}

impl View for Winner {
    type V = WinnerV;

    open spec fn view(&self) -> WinnerV {
        WinnerV { name: self.name@, prize: self.prize, account: self.account@ }
    }
}

/// The mathematical value of an action.
#[verifier::ext_equal]
pub ghost enum ActionV {
    SendToWinner(WinnerV),
    Notify(Seq<char>),
}

/// A side effect for the driver to execute: pay a winner, or show a
/// notification. The orchestrator itself performs no I/O.
#[derive(PartialEq, Eq, Debug)]
pub enum Action {
    SendToWinner(Winner),
    Notify(String),
}

impl View for Action {
    type V = ActionV;

    open spec fn view(&self) -> ActionV {
        match self {
            Action::SendToWinner(w) => ActionV::SendToWinner(w@),
            Action::Notify(m) => ActionV::Notify(m@),
        }
    }
}

impl DeepView for Action {
    type V = ActionV;

    open spec fn deep_view(&self) -> ActionV {
        self.view()
    }
}

/// The text of the congratulation shown when a winner is paid.
pub open spec fn congrats_text(name: Seq<char>, prize: Amount) -> Seq<char> {
    "Congratulations "@ + name + "! You've just won XNO "@ + balance_text(prize.raw as int, 2)
}

/// The win-confirmation handshake. A due draw moves to `Spinning`; the
/// external display confirms, moving to `Confirming`; the next tick pays out
/// and returns to `Waiting`. Holding the result inside the state makes a
/// confirmation without a pending win unrepresentable.
pub enum SpinState {
    Waiting,
    Spinning(RaffleResult),
    Confirming(RaffleResult),
}

/// The mathematical value of the handshake state.
#[verifier::ext_equal]
pub ghost enum SpinV {
    Waiting,
    Spinning(RaffleResultV),
    Confirming(RaffleResultV),
}

pub open spec fn spin_view(s: SpinState) -> SpinV {
    match s {
        SpinState::Waiting => SpinV::Waiting,
        SpinState::Spinning(w) => SpinV::Spinning(w@),
        SpinState::Confirming(w) => SpinV::Confirming(w@),
    }
}

/// A raffle result always lists its winner among the participants.
pub open spec fn result_has_winner(r: RaffleResultV) -> bool {
    exists|i: int| 0 <= i < r.participants.len() && r.participants[i] == r.winner
}

/// The display name a participant is registered under: the author's name,
/// or a placeholder.
pub open spec fn author_display_name(m: ChatMessageV) -> Seq<char> {
    match m.author_name {
        Some(n) => n,
        None => "no name"@,
    }
}

/// The registry after scanning the words of a message, front to back: each
/// word that is a valid address registers the author under it.
pub open spec fn register_words(
    ps: Seq<ParticipantV>,
    m: ChatMessageV,
    words: Seq<Seq<char>>,
) -> Seq<ParticipantV>
    decreases words.len(),
{
    if words.len() == 0 {
        ps
    } else {
        let ps2 = match account_decode(words[0]) {
            Some(key) => upserted(
                ps,
                ParticipantV {
                    channel_id: m.author_channel_id,
                    name: author_display_name(m),
                    account: key,
                },
            ),
            None => ps,
        };
        register_words(ps2, m, words.drop_first())
    }
}

/// The registry after one chat message is handled.
pub open spec fn registered_after(ps: Seq<ParticipantV>, m: ChatMessageV) -> Seq<ParticipantV> {
    register_words(ps, m, words_of(m.message))
}

/// The whole orchestration state: what the periodic driver, the chat
/// adapters and the display poller all act on.
pub struct RaffleLogic {
    pub latest_messages: LatestChatMessages,
    pub participants: ParticipantRegistry,
    pub raffle_runner: RaffleRunner,
    pub announcement: UpcomingRaffleAnnouncement,
    pub spin_state: SpinState,
    pub running: bool,
    pub last_ping: Option<Timestamp>,
    pub winners: Vec<String>,
}

impl Default for RaffleLogic {
    fn default() -> (r: Self)
        ensures
            r.wf(),
            !r.running,
            r.latest_messages@ == Seq::<ChatMessageV>::empty(),
            r.participants@ == Seq::<ParticipantV>::empty(),
            r.raffle_runner.next_raffle is None,
            r.raffle_runner.interval.millis
                == crate::raffle_runner::DEFAULT_RAFFLE_INTERVAL_MS,
            r.raffle_runner.prize.raw == 1 * crate::amount::RAW_PER_NANO,
            !r.announcement.announcement_made,
            r.spin_state is Waiting,
            r.last_ping is None,
            r.winners@.len() == 0,
    {
        RaffleLogic {
            latest_messages: LatestChatMessages::default(),
            participants: ParticipantRegistry::default(),
            raffle_runner: RaffleRunner::default(),
            announcement: UpcomingRaffleAnnouncement::default(),
            spin_state: SpinState::Waiting,
            running: false,
            last_ping: None,
            winners: Vec::new(),
        }
    }
}

impl RaffleLogic {
    /// Well-formedness: the registry and message buffer invariants, and any
    /// held raffle result lists its winner among its participants.
    pub open spec fn wf(&self) -> bool {
        &&& self.participants.wf()
        &&& self.latest_messages.wf()
        &&& match self.spin_state {
            SpinState::Waiting => true,
            SpinState::Spinning(w) => result_has_winner(w@),
            SpinState::Confirming(w) => result_has_winner(w@),
        }
    }

    /// A tick at `now` is at or past the (possibly lazily initialized)
    /// scheduled raffle time.
    pub open spec fn tick_due(&self, now: Timestamp) -> bool {
        self.running && now.millis >= self.raffle_runner.spec_next(now).millis
    }

    /// A due tick over a non-empty registry draws a winner.
    pub open spec fn tick_drawn(&self, now: Timestamp) -> bool {
        self.tick_due(now) && self.participants@.len() > 0
    }

    /// A tick pays out when a confirmed win is pending and no new draw
    /// displaces it.
    pub open spec fn tick_pays(&self, now: Timestamp) -> bool {
        self.running && !self.tick_drawn(now) && self.spin_state matches SpinState::Confirming(_)
    }

    /// The schedule after a tick: advanced by one interval from `now` when
    /// the tick was due, otherwise unchanged (after lazy initialization).
    pub open spec fn next_after_tick(&self, now: Timestamp) -> Timestamp {
        if self.tick_due(now) {
            Timestamp { millis: (now.millis + self.raffle_runner.interval.millis) as u64 }
        } else {
            self.raffle_runner.spec_next(now)
        }
    }

    /// The announcement flag as the scheduler sees it within a tick: a due
    /// tick completes the cycle and re-arms the announcement first.
    pub open spec fn made_before_announce(&self, now: Timestamp) -> bool {
        if self.tick_due(now) {
            false
        } else {
            self.announcement.announcement_made
        }
    }

    /// A tick announces when, after any draw and reschedule, `now` lies in
    /// the announcement window of the new schedule and the cycle has not yet
    /// announced.
    pub open spec fn tick_announces(&self, now: Timestamp) -> bool {
        self.running && should_announce(
            self.made_before_announce(now),
            self.next_after_tick(now),
            now,
        )
    }

    /// The handshake state after a tick: a draw (re)fills it, a payout
    /// empties it, anything else leaves it alone.
    pub open spec fn spin_after_tick(&self, now: Timestamp, random: u32) -> SpinV {
        if self.tick_drawn(now) {
            SpinV::Spinning(draw_result(self.participants@, random, self.raffle_runner.prize))
        } else if self.tick_pays(now) {
            SpinV::Waiting
        } else {
            spin_view(self.spin_state)
        }
    }

    /// The winner history after a tick: a payout appends the winner's name.
    pub open spec fn winners_after_tick(&self, now: Timestamp) -> Seq<Seq<char>> {
        if self.tick_pays(now) {
            match self.spin_state {
                SpinState::Confirming(w) => self.winners.deep_view().push(w@.winner),
                _ => self.winners.deep_view(),
            }
        } else {
            self.winners.deep_view()
        }
    }

    /// Everything a tick returns for the driver to execute: the payout pair
    /// (congratulation, then the payment) when a confirmed win completes,
    /// followed by the pre-raffle announcement when its window is reached.
    pub open spec fn tick_actions(&self, now: Timestamp, random: u32) -> Seq<ActionV> {
        if !self.running {
            Seq::<ActionV>::empty()
        } else {
            let pay = if self.tick_pays(now) {
                match self.spin_state {
                    SpinState::Confirming(w) => seq![
                        ActionV::Notify(congrats_text(w@.winner, w@.prize)),
                        ActionV::SendToWinner(
                            WinnerV { name: w@.winner, prize: w@.prize, account: w@.destination },
                        ),
                    ],
                    _ => Seq::<ActionV>::empty(),
                }
            } else {
                Seq::<ActionV>::empty()
            };
            let ann = if self.tick_announces(now) {
                seq![ActionV::Notify(announcement_text())]
            } else {
                Seq::<ActionV>::empty()
            };
            pay + ann
        }
    }

    pub fn running(&self) -> (r: bool)
        ensures
            r == self.running,
    {
        self.running
    }

    pub fn start(&mut self)
        ensures
            final(self).running,
            final(self).latest_messages == old(self).latest_messages,
            final(self).participants == old(self).participants,
            final(self).raffle_runner == old(self).raffle_runner,
            final(self).announcement == old(self).announcement,
            spin_view(final(self).spin_state) == spin_view(old(self).spin_state),
            final(self).last_ping == old(self).last_ping,
            final(self).winners == old(self).winners,
    {
        self.running = true;
    }

    /// Stop, and forget the schedule: a restarted raffle begins a fresh
    /// cycle from the next tick.
    pub fn stop(&mut self)
        ensures
            !final(self).running,
            final(self).raffle_runner.next_raffle is None,
            final(self).raffle_runner.prize == old(self).raffle_runner.prize,
            final(self).raffle_runner.interval == old(self).raffle_runner.interval,
            final(self).latest_messages == old(self).latest_messages,
            final(self).participants == old(self).participants,
            final(self).announcement == old(self).announcement,
            spin_view(final(self).spin_state) == spin_view(old(self).spin_state),
            final(self).last_ping == old(self).last_ping,
            final(self).winners == old(self).winners,
    {
        self.running = false;
        self.raffle_runner.reset();
    }

    /// Scan a message's words; every valid payout address registers the
    /// author (the last one wins). The message always enters the buffer.
    pub fn handle_chat_message(&mut self, message: ChatMessage)
        requires
            old(self).wf(),
        ensures
            final(self).wf(),
            final(self).participants@ == registered_after(old(self).participants@, message@),
            final(self).latest_messages@ == buffer_push(old(self).latest_messages@, message@),
            final(self).raffle_runner == old(self).raffle_runner,
            final(self).announcement == old(self).announcement,
            spin_view(final(self).spin_state) == spin_view(old(self).spin_state),
            final(self).running == old(self).running,
            final(self).last_ping == old(self).last_ping,
            final(self).winners == old(self).winners,
    {
        let ghost m = message@;
        let ghost ws = words_of(m.message);
        let words = crate::strings::split_words(message.message.as_str());
        proof {
            assert(ws.skip(0) =~= ws);
        }
        let mut i: usize = 0;
        while i < words.len()
            invariant
                i <= words@.len(),
                words.deep_view() == ws,
                m == message@,
                self.participants.wf(),
                register_words(old(self).participants@, m, ws) == register_words(
                    self.participants@,
                    m,
                    ws.skip(i as int),
                ),
                self.latest_messages == old(self).latest_messages,
                self.raffle_runner == old(self).raffle_runner,
                self.announcement == old(self).announcement,
                spin_view(self.spin_state) == spin_view(old(self).spin_state),
                self.running == old(self).running,
                self.last_ping == old(self).last_ping,
                self.winners == old(self).winners,
            decreases words@.len() - i,
        {
            let ghost ps_before = self.participants@;
            proof {
                assert(ws.skip(i as int)[0] == ws[i as int]);
                assert(ws.skip(i as int).drop_first() =~= ws.skip(i + 1));
            }
            match crate::account::Account::decode_account(words[i].as_str()) {
                Some(account) => {
                    let name = match &message.author_name {
                        Some(n) => n.clone(),
                        None => "no name".to_owned(),
                    };
                    self.participants.add(
                        Participant {
                            channel_id: message.author_channel_id.clone(),
                            name,
                            account,
                        },
                    );
                },
                None => {},
            }
            i = i + 1;
        }
        proof {
            assert(ws.skip(words@.len() as int).len() == 0);
        }
        self.latest_messages.add(message);
    }

    pub fn set_prize(&mut self, prize: Amount)
        ensures
            final(self).raffle_runner.prize == prize,
            final(self).raffle_runner.next_raffle == old(self).raffle_runner.next_raffle,
            final(self).raffle_runner.interval == old(self).raffle_runner.interval,
            final(self).latest_messages == old(self).latest_messages,
            final(self).participants == old(self).participants,
            final(self).announcement == old(self).announcement,
            spin_view(final(self).spin_state) == spin_view(old(self).spin_state),
            final(self).running == old(self).running,
            final(self).last_ping == old(self).last_ping,
            final(self).winners == old(self).winners,
    {
        self.raffle_runner.set_prize(prize);
    }

    pub fn raffle_interval(&self) -> (r: Duration)
        ensures
            r == self.raffle_runner.interval,
    {
        self.raffle_runner.raffle_interval()
    }

    pub fn set_raffle_interval(&mut self, interval: Duration)
        ensures
            final(self).raffle_runner.interval == interval,
            final(self).raffle_runner.next_raffle == old(self).raffle_runner.next_raffle,
            final(self).raffle_runner.prize == old(self).raffle_runner.prize,
            final(self).participants == old(self).participants,
            final(self).running == old(self).running,
            final(self).latest_messages == old(self).latest_messages,
            final(self).announcement == old(self).announcement,
            spin_view(final(self).spin_state) == spin_view(old(self).spin_state),
            final(self).last_ping == old(self).last_ping,
            final(self).winners == old(self).winners,
    {
        self.raffle_runner.set_raffle_interval(interval);
    }

    /// Short-circuit the wait: the next tick is due immediately.
    pub fn run_raffle_now(&mut self, now: Timestamp)
        ensures
            final(self).raffle_runner.next_raffle == Some(now),
            final(self).raffle_runner.prize == old(self).raffle_runner.prize,
            final(self).raffle_runner.interval == old(self).raffle_runner.interval,
            final(self).participants == old(self).participants,
            final(self).running == old(self).running,
            final(self).latest_messages == old(self).latest_messages,
            final(self).announcement == old(self).announcement,
            spin_view(final(self).spin_state) == spin_view(old(self).spin_state),
            final(self).last_ping == old(self).last_ping,
            final(self).winners == old(self).winners,
    {
        self.raffle_runner.run_raffle_now(now);
    }

    pub fn prize(&self) -> (r: Amount)
        ensures
            r == self.raffle_runner.prize,
    {
        self.raffle_runner.prize()
    }

    /// Record a liveness ping from the display poller.
    pub fn ping(&mut self, now: Timestamp)
        ensures
            final(self).last_ping == Some(now),
            final(self).latest_messages == old(self).latest_messages,
            final(self).participants == old(self).participants,
            final(self).raffle_runner == old(self).raffle_runner,
            final(self).announcement == old(self).announcement,
            spin_view(final(self).spin_state) == spin_view(old(self).spin_state),
            final(self).running == old(self).running,
            final(self).winners == old(self).winners,
    {
        self.last_ping = Some(now);
    }

    /// The display counts as connected while the most recent ping is within
    /// the liveness window of `now`.
    pub open spec fn spec_connected(&self, now: Timestamp) -> bool {
        match self.last_ping {
            None => false,
            Some(p) => p.millis <= now.millis && now.millis - p.millis < LIVENESS_WINDOW_MS,
        }
    }

    pub fn spinner_connected(&self, now: Timestamp) -> (r: bool)
        ensures
            r == self.spec_connected(now),
    {
        match self.last_ping {
            None => false,
            Some(p) => p.millis <= now.millis && now.millis - p.millis < LIVENESS_WINDOW_MS,
        }
    }

    /// The pending win, visible only until the display confirms it.
    pub fn current_win(&self) -> (r: Option<&RaffleResult>)
        ensures
            r is Some <==> self.spin_state matches SpinState::Spinning(_),
            self.spin_state matches SpinState::Spinning(w) ==> (r matches Some(x) && *x == w),
    {
        match &self.spin_state {
            SpinState::Spinning(w) => Some(w),
            _ => None,
        }
    }

    /// The buffered recent messages, oldest first.
    pub fn latest_messages(&self) -> (r: Vec<ChatMessage>)
        ensures
            r.deep_view() == self.latest_messages@,
    {
        self.latest_messages.iter()
    }

    /// The registered participants, sorted by channel id.
    pub fn participants(&self) -> (r: Vec<Participant>)
        requires
            self.wf(),
        ensures
            r.deep_view() == self.participants@,
    {
        self.participants.list()
    }

    /// The names of every winner so far, in order.
    pub fn winners(&self) -> (r: &Vec<String>)
        ensures
            r == &self.winners,
    {
        &self.winners
    }

    /// Time left until the next raffle; zero while stopped or once due.
    pub fn countdown(&mut self, now: Timestamp) -> (r: Duration)
        requires
            old(self).running && old(self).raffle_runner.next_raffle is None ==> now.millis + old(
                self,
            ).raffle_runner.interval.millis <= u64::MAX,
        ensures
            final(self).running == old(self).running,
            final(self).participants == old(self).participants,
            !old(self).running ==> r.millis == 0 && final(self).raffle_runner == old(
                self,
            ).raffle_runner,
            old(self).running ==> {
                let next = old(self).raffle_runner.spec_next(now);
                &&& final(self).raffle_runner.next_raffle == Some(next)
                &&& r.millis == if now.millis >= next.millis {
                    0int
                } else {
                    next.millis - now.millis
                }
            },
            final(self).raffle_runner.prize == old(self).raffle_runner.prize,
            final(self).raffle_runner.interval == old(self).raffle_runner.interval,
            final(self).latest_messages == old(self).latest_messages,
            final(self).announcement == old(self).announcement,
            spin_view(final(self).spin_state) == spin_view(old(self).spin_state),
            final(self).last_ping == old(self).last_ping,
            final(self).winners == old(self).winners,
    {
        if !self.running {
            return Duration::zero();
        }
        let next = self.raffle_runner.next_raffle(now);
        if now.is_at_or_after(next) {
            Duration::zero()
        } else {
            next.since(now)
        }
    }

    /// External confirmation that the display finished its animation: a
    /// pending win becomes confirmed; without one, nothing happens.
    pub fn spin_finished(&mut self)
        ensures
            old(self).spin_state matches SpinState::Spinning(w) ==> (final(self).spin_state
                matches SpinState::Confirming(w2) && w2@ == w@),
            !(old(self).spin_state matches SpinState::Spinning(_)) ==> final(self).spin_state
                == old(self).spin_state,
            final(self).latest_messages == old(self).latest_messages,
            final(self).participants == old(self).participants,
            final(self).raffle_runner == old(self).raffle_runner,
            final(self).announcement == old(self).announcement,
            final(self).running == old(self).running,
            final(self).last_ping == old(self).last_ping,
            final(self).winners == old(self).winners,
            old(self).wf() ==> final(self).wf(),
    {
        let win: Option<RaffleResult> = match &self.spin_state {
            SpinState::Spinning(w) => Some(w.clone()),
            _ => None,
        };
        match win {
            Some(w) => {
                self.spin_state = SpinState::Confirming(w);
            },
            None => {},
        }
    }

    /// Advance everything by one tick: attempt a due draw, complete a
    /// confirmed win into a payout, and run the announcement scheduler; the
    /// returned actions are the caller's to execute.
    pub fn tick(&mut self, now: Timestamp, random: u32) -> (r: Vec<Action>)
        requires
            old(self).wf(),
            old(self).running ==> now.millis + old(self).raffle_runner.interval.millis
                <= u64::MAX,
        ensures
            final(self).wf(),
            final(self).running == old(self).running,
            final(self).latest_messages == old(self).latest_messages,
            final(self).participants == old(self).participants,
            final(self).last_ping == old(self).last_ping,
            final(self).raffle_runner.prize == old(self).raffle_runner.prize,
            final(self).raffle_runner.interval == old(self).raffle_runner.interval,
            !old(self).running ==> final(self).raffle_runner == old(self).raffle_runner
                && final(self).announcement == old(self).announcement,
            old(self).running ==> final(self).raffle_runner.next_raffle == Some(
                old(self).next_after_tick(now),
            ),
            old(self).running ==> final(self).announcement.announcement_made == (old(
                self,
            ).made_before_announce(now) || in_announcement_window(
                old(self).next_after_tick(now),
                now,
            )),
            spin_view(final(self).spin_state) == old(self).spin_after_tick(now, random),
            final(self).winners.deep_view() == old(self).winners_after_tick(now),
            r.deep_view() == old(self).tick_actions(now, random),
    {
        if !self.running {
            let r: Vec<Action> = Vec::new();
            proof {
                assert(r.deep_view() =~= old(self).tick_actions(now, random));
            }
            return r;
        }
        let next0 = self.raffle_runner.next_raffle(now);
        let due = now.is_at_or_after(next0);
        let result = self.raffle_runner.try_run_raffle(&self.participants, now, random);
        if due {
            self.announcement.raffle_completed();
        }
        match result {
            Some(res) => {
                proof {
                    let ps = self.participants@;
                    let k = random as int % ps.len() as int;
                    assert(res@.participants[k] == ps.map_values(|p: ParticipantV| p.name)[k]);
                    assert(result_has_winner(res@));
                }
                self.spin_state = SpinState::Spinning(res);
            },
            None => {},
        }
        let mut actions: Vec<Action> = Vec::new();
        let win: Option<RaffleResult> = match &self.spin_state {
            SpinState::Confirming(w) => Some(w.clone()),
            _ => None,
        };
        match win {
            Some(w) => {
                self.spin_state = SpinState::Waiting;
                self.winners.push(w.winner.clone());
                let balance = w.prize.format_balance(2);
                let msg = "Congratulations ".to_owned().concat(w.winner.as_str()).concat(
                    "! You've just won XNO ",
                ).concat(balance.as_str());
                proof {
                    assert(msg@ =~= congrats_text(w@.winner, w@.prize));
                }
                actions.push(Action::Notify(msg));
                actions.push(
                    Action::SendToWinner(
                        Winner { name: w.winner, prize: w.prize, account: w.destination },
                    ),
                );
            },
            None => {},
        }
        let next1 = self.raffle_runner.next_raffle(now);
        let mut ann = self.announcement.tick(next1, now);
        let ghost actions_before = actions.deep_view();
        let ghost ann_view = ann.deep_view();
        actions.append(&mut ann);
        proof {
            assert forall|k: int| 0 <= k < actions@.len() implies #[trigger] actions.deep_view()[k]
                == (actions_before + ann_view)[k] by {}
            assert(actions.deep_view() =~= actions_before + ann_view);
            assert(actions.deep_view() =~= old(self).tick_actions(now, random));
        }
        actions
    }
}

/// Draw timing. A tick strictly before the scheduled raffle time never
/// draws, and leaves the schedule where it was; a due tick over a non-empty
/// registry draws exactly the seeded result; and a tick landing exactly on
/// the scheduled time moves the schedule exactly one interval past it.
pub proof fn lemma_draw_schedule(s: RaffleLogic, now: Timestamp, random: u32, next: Timestamp)
    requires
        s.running,
        s.raffle_runner.next_raffle == Some(next),
        now.millis + s.raffle_runner.interval.millis <= u64::MAX,
    ensures
        now.millis < next.millis ==> !s.tick_drawn(now) && s.next_after_tick(now) == next,
        now.millis >= next.millis && s.participants@.len() > 0 ==> s.tick_drawn(now)
            && s.spin_after_tick(now, random) == SpinV::Spinning(
            draw_result(s.participants@, random, s.raffle_runner.prize),
        ),
        now == next ==> s.next_after_tick(now).millis == next.millis
            + s.raffle_runner.interval.millis,
{
}

/// Payout discipline. A tick emits a payment action exactly when a confirmed
/// win is pending and no new draw displaces it; and the tick that pays
/// leaves the handshake empty or holding a fresh draw, never the same
/// confirmed win, so no draw is ever paid twice.
pub proof fn lemma_payout_needs_confirmation(s: RaffleLogic, now: Timestamp, random: u32)
    ensures
        (exists|i: int|
            0 <= i < s.tick_actions(now, random).len() && #[trigger] s.tick_actions(now, random)[i]
                is SendToWinner) <==> s.tick_pays(now),
        s.tick_pays(now) ==> !(s.spin_after_tick(now, random) matches SpinV::Confirming(_)),
{
    let acts = s.tick_actions(now, random);
    if s.tick_pays(now) {
        assert(acts[1] is SendToWinner);
    } else {
        assert forall|i: int| 0 <= i < acts.len() implies !(#[trigger] acts[i]
            is SendToWinner) by {
            if s.running && s.tick_announces(now) {
                assert(acts[i] == ActionV::Notify(announcement_text()));
            }
        }
    }
}

/// The schedule only moves forward: apart from the explicit run-now
/// override, a tick leaves `next_raffle_time` where it was or advances it,
/// never rewinds it.
pub proof fn lemma_schedule_monotonic(s: RaffleLogic, now: Timestamp)
    requires
        s.running,
        now.millis + s.raffle_runner.interval.millis <= u64::MAX,
    ensures
        s.next_after_tick(now).millis >= s.raffle_runner.spec_next(now).millis,
{
}

/// Restart semantics. After `stop` (which clears the schedule) and `start`,
/// the next tick treats its own time as the new cycle origin: the schedule
/// becomes one interval from that tick, whatever it was before the stop.
pub proof fn lemma_restart_resets_schedule(s: RaffleLogic, now: Timestamp)
    requires
        s.running,
        s.raffle_runner.next_raffle is None,
        now.millis + s.raffle_runner.interval.millis <= u64::MAX,
    ensures
        s.next_after_tick(now).millis == now.millis + s.raffle_runner.interval.millis,
{
}

} // verus!
