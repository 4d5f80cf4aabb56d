use nano_raffle::chat::ChatMessage;
use nano_raffle::latest_chat_messages::LatestChatMessages;

#[test]
pub fn latest_chat_messages_empty() {
    let msgs = LatestChatMessages::default();
    assert_eq!(msgs.iter().len(), 0);
}

#[test]
pub fn latest_chat_messages_record_message() {
    let mut msgs = LatestChatMessages::default();
    let message = ChatMessage::new_test_instance();
    msgs.add(message.clone());
    assert_eq!(msgs.iter(), vec![message]);
}

#[test]
pub fn latest_chat_messages_limit_to_last_30() {
    let mut msgs = LatestChatMessages::default();
    for i in 0..40 {
        let message = ChatMessage {
            message: format!("message number {}", i),
            ..ChatMessage::new_test_instance()
        };
        msgs.add(message);
    }
    let collected = msgs.iter();
    assert_eq!(collected.len(), 30);
    assert_eq!(collected[0].message, "message number 10");
    assert_eq!(collected[29].message, "message number 39");
}
