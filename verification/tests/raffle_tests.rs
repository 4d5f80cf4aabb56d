use nano_raffle::account::Account;
use nano_raffle::chat::ChatMessage;
use nano_raffle::logic::{Action, RaffleLogic, Winner};
use nano_raffle::timing::{Duration, Timestamp};
use nano_raffle::upcoming_raffle_announcement::UpcomingRaffleAnnouncement;

fn message_from(channel: &str, name: &str, text: String) -> ChatMessage {
    ChatMessage {
        author_channel_id: channel.to_owned(),
        author_name: Some(name.to_owned()),
        message: text,
    }
}

// A raffle tick before the scheduled time yields no result; a tick at it
// draws (with a participant registered) and reschedules one interval later.
#[test]
fn draw_timing() {
    let mut logic = RaffleLogic::default();
    logic.set_raffle_interval(Duration::from_secs(60));
    logic.start();
    let t0 = Timestamp::from_millis(0);
    logic.tick(t0, 7);
    let account = Account::from_u64(5);
    logic.handle_chat_message(message_from("chan", "Ann", account.encode_account()));

    logic.tick(Timestamp::from_millis(59_999), 7);
    assert!(logic.current_win().is_none());

    logic.tick(Timestamp::from_millis(60_000), 7);
    let win = logic.current_win().expect("due tick with a participant draws");
    assert_eq!(win.winner, "Ann");
    // the schedule moved exactly one interval past the draw
    assert_eq!(logic.countdown(Timestamp::from_millis(60_000)).as_secs(), 60);
}

// A due tick over an empty registry draws nobody but still reschedules.
#[test]
fn due_tick_without_participants_reschedules() {
    let mut logic = RaffleLogic::default();
    logic.set_raffle_interval(Duration::from_secs(60));
    logic.start();
    logic.tick(Timestamp::from_millis(0), 3);
    let actions = logic.tick(Timestamp::from_millis(60_000), 3);
    assert!(actions.is_empty());
    assert!(logic.current_win().is_none());
    assert_eq!(logic.countdown(Timestamp::from_millis(60_000)).as_secs(), 60);
}

// The announcement fires exactly once per cycle: nothing strictly before the
// window, one notification at its start, nothing after, and again only once
// the cycle completes.
#[test]
fn announcement_once_per_cycle() {
    let mut ann = UpcomingRaffleAnnouncement::default();
    let next = Timestamp::from_millis(100_000);
    assert!(ann.tick(next, Timestamp::from_millis(89_999)).is_empty());
    let fired = ann.tick(next, Timestamp::from_millis(90_000));
    assert_eq!(
        fired,
        vec![Action::Notify(
            "Get ready! The next raffle starts in 10 seconds...".to_owned()
        )]
    );
    assert!(ann.tick(next, Timestamp::from_millis(95_000)).is_empty());
    assert!(ann.tick(next, Timestamp::from_millis(99_000)).is_empty());
    ann.raffle_completed();
    assert_eq!(ann.tick(next, Timestamp::from_millis(99_000)).len(), 1);
}

// Payout actions come only after spin_finished() follows a draw: never
// before the confirmation, and never twice for the same draw.
#[test]
fn payout_needs_confirmation_and_fires_once() {
    let mut logic = RaffleLogic::default();
    logic.set_raffle_interval(Duration::from_secs(60));
    logic.start();
    logic.tick(Timestamp::from_millis(0), 0);
    let account = Account::from_u64(9);
    logic.handle_chat_message(message_from("chan", "Bob", account.encode_account()));

    let actions = logic.tick(Timestamp::from_millis(60_000), 0);
    assert!(actions.is_empty(), "no payout before confirmation");
    let actions = logic.tick(Timestamp::from_millis(60_001), 0);
    assert!(actions.is_empty(), "still no payout before confirmation");

    logic.spin_finished();
    let actions = logic.tick(Timestamp::from_millis(60_002), 0);
    assert_eq!(actions.len(), 2);
    assert!(matches!(actions[0], Action::Notify(_)));
    assert!(matches!(actions[1], Action::SendToWinner(_)));
    assert_eq!(logic.winners(), &vec!["Bob".to_owned()]);

    let actions = logic.tick(Timestamp::from_millis(60_003), 0);
    assert!(actions.is_empty(), "the same draw never pays twice");
    assert_eq!(logic.winners().len(), 1);
}

// End-to-end: an empty registry, one registration from chat, a draw, the
// confirmation handshake, and the payout actions.
#[test]
fn end_to_end_single_participant() {
    let mut logic = RaffleLogic::default();
    logic.set_raffle_interval(Duration::from_secs(30));
    logic.start();

    let actions = logic.tick(Timestamp::from_millis(0), 0);
    assert!(actions.is_empty(), "first tick only initializes the schedule");

    let account = Account::from_u64(77);
    let address = account.encode_account();
    logic.handle_chat_message(message_from("user-a", "A", format!("addr: {}", address)));
    assert_eq!(logic.participants().len(), 1);

    let actions = logic.tick(Timestamp::from_millis(30_000), 4);
    assert!(actions.is_empty(), "the draw itself returns no actions");
    let win = logic.current_win().expect("A wins");
    assert_eq!(win.winner, "A");
    assert_eq!(win.participants, vec!["A".to_owned()]);

    logic.spin_finished();
    let actions = logic.tick(Timestamp::from_millis(31_000), 4);
    assert_eq!(actions.len(), 2);
    assert!(matches!(actions[0], Action::Notify(_)));
    assert_eq!(
        actions[1],
        Action::SendToWinner(Winner {
            name: "A".to_owned(),
            prize: logic.prize(),
            account
        })
    );
    assert_eq!(logic.winners(), &vec!["A".to_owned()]);
    assert!(logic.current_win().is_none());
}

// Restart resets the schedule: after stop() and start(), the next tick
// treats its own time as the cycle origin.
#[test]
fn restart_resets_schedule() {
    let mut logic = RaffleLogic::default();
    logic.set_raffle_interval(Duration::from_secs(60));
    logic.start();
    logic.tick(Timestamp::from_millis(0), 0);
    assert_eq!(logic.countdown(Timestamp::from_millis(10_000)).as_secs(), 50);

    logic.stop();
    assert_eq!(logic.countdown(Timestamp::from_millis(10_000)).as_secs(), 0);
    logic.start();

    logic.tick(Timestamp::from_millis(500_000), 0);
    assert_eq!(
        logic.countdown(Timestamp::from_millis(500_000)).as_secs(),
        60,
        "the restarted cycle starts at the tick, not at the old schedule"
    );
}

// While stopped, ticks do nothing and the countdown reads zero.
#[test]
fn stopped_logic_is_inert() {
    let mut logic = RaffleLogic::default();
    let account = Account::from_u64(3);
    logic.handle_chat_message(message_from("chan", "Cee", account.encode_account()));
    let actions = logic.tick(Timestamp::from_millis(1_000_000), 1);
    assert!(actions.is_empty());
    assert!(logic.current_win().is_none());
    assert_eq!(logic.countdown(Timestamp::from_millis(1_000_000)).as_millis(), 0);
}

// run_raffle_now short-circuits the wait.
#[test]
fn run_raffle_now_draws_immediately() {
    let mut logic = RaffleLogic::default();
    logic.start();
    logic.tick(Timestamp::from_millis(0), 0);
    let account = Account::from_u64(11);
    logic.handle_chat_message(message_from("chan", "Dee", account.encode_account()));
    logic.run_raffle_now(Timestamp::from_millis(5_000));
    logic.tick(Timestamp::from_millis(5_000), 0);
    assert_eq!(logic.current_win().unwrap().winner, "Dee");
}

// Liveness: the spinner counts as connected only within the window after a
// ping.
#[test]
fn spinner_liveness_window() {
    let mut logic = RaffleLogic::default();
    assert!(!logic.spinner_connected(Timestamp::from_millis(1_000)));
    logic.ping(Timestamp::from_millis(1_000));
    assert!(logic.spinner_connected(Timestamp::from_millis(1_000)));
    assert!(logic.spinner_connected(Timestamp::from_millis(3_999)));
    assert!(!logic.spinner_connected(Timestamp::from_millis(4_000)));
}

// The overlay poll: idle answers carry no roster; a pending win carries the
// roster and the winner's index, and confirming hides the win.
#[test]
fn overlay_poll_instruction() {
    let mut logic = RaffleLogic::default();
    logic.set_raffle_interval(Duration::from_secs(30));
    logic.start();
    logic.tick(Timestamp::from_millis(0), 0);

    let idle = logic.spin_instruction(Timestamp::from_millis(1));
    assert!(!idle.spin);
    assert!(idle.participants.is_empty());
    assert_eq!(idle.winner, 0);
    assert!(logic.spinner_connected(Timestamp::from_millis(2)));

    for (chan, name, v) in [("c1", "P1", 21u64), ("c2", "P2", 22), ("c3", "P3", 23)] {
        let account = Account::from_u64(v);
        logic.handle_chat_message(message_from(chan, name, account.encode_account()));
    }
    logic.tick(Timestamp::from_millis(30_000), 1);

    let spin = logic.spin_instruction(Timestamp::from_millis(30_001));
    assert!(spin.spin);
    assert_eq!(spin.participants, vec!["P1", "P2", "P3"]);
    assert_eq!(spin.winner, 1, "seed 1 over 3 entries picks index 1");

    logic.spin_finished();
    let confirmed = logic.spin_instruction(Timestamp::from_millis(30_002));
    assert!(!confirmed.spin);
}

// Selection is deterministic in the seed: same registry, same seed, same
// winner; the index is seed mod n into the sorted roster.
#[test]
fn deterministic_selection_modulo() {
    let mut logic = RaffleLogic::default();
    logic.set_raffle_interval(Duration::from_secs(30));
    logic.start();
    logic.tick(Timestamp::from_millis(0), 0);
    for (chan, name, v) in [("a", "First", 1u64), ("b", "Second", 2), ("c", "Third", 3)] {
        let account = Account::from_u64(v);
        logic.handle_chat_message(message_from(chan, name, account.encode_account()));
    }
    logic.tick(Timestamp::from_millis(30_000), 5);
    assert_eq!(logic.current_win().unwrap().winner, "Third", "5 mod 3 = 2");
}
