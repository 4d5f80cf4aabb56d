use nano_raffle::account::Account;
use nano_raffle::amount::{Amount, RAW_PER_NANO};
use nano_raffle::participants::Participant;
use nano_raffle::participants_file::ParticipantsFile;
use nano_raffle::prize_sender::{plan_send_block, remaining_delay, AccountInfo, PrizeError};
use nano_raffle::chat::ChatMessage;
use nano_raffle::logic::RaffleLogic;
use nano_raffle::timing::Duration;

const KNOWN_ADDRESS: &str = "nano_37391u1nrr1j7tdn8w9zathoio5suz9bar18jksqheeiy4obwz3pkgp9aqz6";

#[test]
fn address_round_trip() {
    for v in [0u64, 1, 42, 99999, u64::MAX] {
        let account = Account::from_u64(v);
        let address = account.encode_account();
        assert_eq!(address.len(), 65);
        assert!(address.starts_with("nano_"));
        let decoded = Account::decode_account(&address).expect("own encoding decodes");
        assert_eq!(decoded, account);
    }
}

#[test]
fn decode_rejects_malformed_addresses() {
    assert!(Account::decode_account("").is_none());
    assert!(Account::decode_account("nano_").is_none());
    assert!(Account::decode_account("hello").is_none());
    // wrong prefix
    let wrong_prefix = KNOWN_ADDRESS.replace("nano_", "anno_");
    assert!(Account::decode_account(&wrong_prefix).is_none());
    // a character outside the address alphabet ('0' is never used)
    let bad_char = format!("{}0", &KNOWN_ADDRESS[..64]);
    assert!(Account::decode_account(&bad_char).is_none());
    // truncated
    assert!(Account::decode_account(&KNOWN_ADDRESS[..64]).is_none());
    // corrupted: a changed key character no longer matches the checksum
    let corrupted = format!("{}{}", "nano_1", &KNOWN_ADDRESS[6..]);
    assert!(Account::decode_account(&corrupted).is_none());
}

#[test]
fn decode_accepts_known_address() {
    let account = Account::decode_account(KNOWN_ADDRESS).expect("a real address decodes");
    assert_eq!(account.encode_account(), KNOWN_ADDRESS);
}

#[test]
fn from_u64_is_big_endian_tail() {
    let account = Account::from_u64(0x0102_0304_0506_0708);
    let bytes = account.as_bytes();
    assert_eq!(bytes.len(), 32);
    assert!(bytes[..24].iter().all(|b| *b == 0));
    assert_eq!(&bytes[24..], &[1, 2, 3, 4, 5, 6, 7, 8]);
}

#[test]
fn format_balance_whole_and_fraction() {
    assert_eq!(Amount::nano(1).format_balance(2), "1.00");
    assert_eq!(Amount::nano(250).format_balance(2), "250.00");
    assert_eq!(Amount::nano(1).format_balance(0), "1");
    assert_eq!(Amount::from_raw(RAW_PER_NANO / 2).format_balance(2), "0.50");
    assert_eq!(Amount::from_raw(RAW_PER_NANO / 4).format_balance(1), "0.2");
    assert_eq!(Amount::from_raw(0).format_balance(2), "0.00");
    // truncation, never rounding
    assert_eq!(
        Amount::from_raw(RAW_PER_NANO - 1).format_balance(2),
        "0.99"
    );
}

#[test]
fn plan_send_block_success() {
    let info = AccountInfo {
        frontier: vec![0xab; 32],
        balance: Amount::nano(10),
        representative: Some(Account::from_u64(1)),
    };
    let plan = plan_send_block(info, Account::from_u64(2), Amount::nano(3)).unwrap();
    assert_eq!(plan.previous, vec![0xab; 32]);
    assert_eq!(plan.representative, Account::from_u64(1));
    assert_eq!(plan.new_balance, Amount::nano(7));
    assert_eq!(plan.destination, Account::from_u64(2));
}

#[test]
fn plan_send_block_missing_representative() {
    let info = AccountInfo {
        frontier: vec![0; 32],
        balance: Amount::nano(10),
        representative: None,
    };
    let err = plan_send_block(info, Account::from_u64(2), Amount::nano(3)).unwrap_err();
    assert_eq!(err, PrizeError::MissingRepresentative);
}

#[test]
fn plan_send_block_insufficient_balance() {
    let info = AccountInfo {
        frontier: vec![0; 32],
        balance: Amount::nano(1),
        representative: Some(Account::from_u64(1)),
    };
    let err = plan_send_block(info, Account::from_u64(2), Amount::nano(3)).unwrap_err();
    assert_eq!(err, PrizeError::InsufficientBalance);
}

#[test]
fn minimum_send_delay() {
    assert_eq!(remaining_delay(Duration::from_millis(0)).as_millis(), 15_000);
    assert_eq!(remaining_delay(Duration::from_millis(14_999)).as_millis(), 1);
    assert_eq!(remaining_delay(Duration::from_millis(15_000)).as_millis(), 0);
    assert_eq!(remaining_delay(Duration::from_millis(20_000)).as_millis(), 0);
}

#[test]
fn participants_file_saves_only_changes() {
    let mut file = ParticipantsFile::default();
    let a = Participant::new_test_instance_for_channel("a".to_owned());
    let b = Participant::new_test_instance_for_channel("b".to_owned());

    let saved = file.update(vec![a.clone(), b.clone()]);
    assert_eq!(saved, Some(vec![a.clone(), b.clone()]));

    // same set, different order: nothing to save
    assert_eq!(file.update(vec![b.clone(), a.clone()]), None);

    // a genuinely changed set is saved again
    let c = Participant::new_test_instance_for_channel("c".to_owned());
    assert_eq!(file.update(vec![a, b, c.clone()]).unwrap().len(), 3);
}

#[test]
fn every_word_is_scanned_and_last_address_wins() {
    let first = Account::from_u64(100);
    let second = Account::from_u64(200);
    let mut logic = RaffleLogic::default();
    logic.handle_chat_message(ChatMessage {
        author_channel_id: "chan".to_owned(),
        author_name: Some("Eve".to_owned()),
        message: format!(
            "old {} new\t{} done",
            first.encode_account(),
            second.encode_account()
        ),
    });
    let registered = logic.participants();
    assert_eq!(registered.len(), 1);
    assert_eq!(registered[0].account, second);
}
