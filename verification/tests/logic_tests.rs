use nano_raffle::account::Account;
use nano_raffle::chat::ChatMessage;
use nano_raffle::logic::{Action, RaffleLogic, Winner};
use nano_raffle::participants::Participant;
use nano_raffle::raffle_runner::RaffleResult;
use nano_raffle::timing::Timestamp;

#[test]
fn initial_state() {
    let app = RaffleLogic::default();
    assert_eq!(app.latest_messages().len(), 0);
    assert_eq!(app.participants().len(), 0);
}

#[test]
fn receive_chat_message() {
    let mut app = RaffleLogic::default();
    let message = ChatMessage::new_test_instance();
    app.handle_chat_message(message);
    assert_eq!(app.latest_messages().len(), 1);
    assert_eq!(app.participants().len(), 0);
}

#[test]
fn register_viewer() {
    let mut app = RaffleLogic::default();
    let message = ChatMessage {
        message: "My address is nano_37391u1nrr1j7tdn8w9zathoio5suz9bar18jksqheeiy4obwz3pkgp9aqz6 :-)".to_owned(),
        ..ChatMessage::new_test_instance()
    };

    app.handle_chat_message(message.clone());

    let registered = app.participants();
    assert_eq!(registered.len(), 1);
    assert_eq!(
        registered[0],
        Participant {
            channel_id: message.author_channel_id,
            name: message.author_name.unwrap(),
            account: Account::decode_account(
                "nano_37391u1nrr1j7tdn8w9zathoio5suz9bar18jksqheeiy4obwz3pkgp9aqz6"
            )
            .unwrap()
        }
    );
}

#[test]
fn tick_empty() {
    let mut logic = RaffleLogic::default();
    logic.start();
    let actions = logic.tick(Timestamp::new_test_instance(), 1);
    assert!(actions.is_empty());
}

#[test]
fn pick_single_winner() {
    let mut logic = RaffleLogic::default();
    logic.start();
    let start = Timestamp::new_test_instance();
    logic.tick(start, 0);
    let account = Account::from_u64(42);
    let msg = ChatMessage::new_test_instance_for_account(account.clone());
    let viewer = msg.author_name.as_ref().unwrap().clone();
    logic.handle_chat_message(msg.clone());
    let actions = logic.tick(start.plus(logic.raffle_interval()), 0);
    assert_eq!(actions.len(), 0);
    assert_eq!(
        logic.current_win(),
        Some(&RaffleResult {
            winner: viewer.clone(),
            participants: vec![viewer.clone()],
            prize: logic.prize(),
            destination: account.clone()
        })
    );
    logic.spin_finished();

    let actions = logic.tick(start.plus(logic.raffle_interval()), 0);
    assert!(actions.len() > 1);
    assert_eq!(
        actions.last().unwrap(),
        &Action::SendToWinner(Winner {
            name: viewer,
            prize: logic.prize(),
            account
        })
    );
    assert!(logic.current_win().is_none());
}
