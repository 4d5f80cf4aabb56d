use nano_raffle::account::Account;
use nano_raffle::participants::{Participant, ParticipantRegistry};

#[test]
fn participants_empty() {
    let participants = ParticipantRegistry::default();
    assert_eq!(participants.len(), 0);
}

#[test]
fn register_one() {
    let mut participants = ParticipantRegistry::default();
    let john = Participant::new_test_instance();
    participants.add(john.clone());
    assert_eq!(participants.len(), 1);
    assert_eq!(participants.list(), vec![john]);
}

#[test]
fn register_two() {
    let mut participants = ParticipantRegistry::default();
    let alice = Participant::new_test_instance();
    let bob = Participant {
        channel_id: "xxanother_channel".to_owned(),
        ..Participant::new_test_instance()
    };
    participants.add(alice.clone());
    participants.add(bob.clone());
    assert_eq!(participants.len(), 2);
    let list = participants.list();
    assert_eq!(list.len(), 2);
    assert_eq!(participants.list(), vec![alice, bob]);
}

#[test]
fn participants_replace_old_registration() {
    let mut participants = ParticipantRegistry::default();
    let old = Participant::new_test_instance();
    let new = Participant {
        account: Account::from_u64(99999),
        ..old.clone()
    };
    participants.add(old);
    participants.add(new.clone());
    assert_eq!(participants.len(), 1);
    assert_eq!(participants.list(), vec![new]);
}

#[test]
fn return_participants_ordered_by_channel_id() {
    let mut participants = ParticipantRegistry::default();
    let bob = Participant::new_test_instance_for_channel("a".to_owned());
    let alice = Participant::new_test_instance_for_channel("b".to_owned());
    let john = Participant::new_test_instance_for_channel("c".to_owned());
    participants.add(john.clone());
    participants.add(bob.clone());
    participants.add(alice.clone());
    assert_eq!(participants.list(), vec![bob, alice, john])
}

#[test]
fn participants_pick_random_one_entry() {
    let mut participants = ParticipantRegistry::default();
    let john = Participant::new_test_instance_for_channel("a".to_owned());

    participants.add(john.clone());

    assert_eq!(participants.pick_random(1).unwrap(), john);
    assert_eq!(participants.pick_random(2).unwrap(), john);
}

#[test]
fn participants_pick_random() {
    let mut participants = ParticipantRegistry::default();
    let bob = Participant::new_test_instance_for_channel("a".to_owned());
    let alice = Participant::new_test_instance_for_channel("b".to_owned());
    let john = Participant::new_test_instance_for_channel("c".to_owned());

    participants.add(bob.clone());
    participants.add(alice.clone());
    participants.add(john.clone());

    assert_eq!(participants.pick_random(0).unwrap(), bob);
    assert_eq!(participants.pick_random(1).unwrap(), alice);
    assert_eq!(participants.pick_random(2).unwrap(), john);
    assert_eq!(participants.pick_random(3).unwrap(), bob);
}
