use cwal_core::replay::parse_replay_bytes;
use cwal_core::replay::ChatMessage;
use cwal_core::replay::ParsedReplay;

fn msg(sender: &str, text: &str, frame: u32, id: u8) -> ChatMessage {
    ChatMessage {
        sender_name: sender.to_string(),
        message: text.to_string(),
        frame_number: frame,
        sender_id: id,
    }
}

#[test]
fn chat_messages_are_stamped_at_42_ms_per_frame() {
    let replay = ParsedReplay {
        duration_ms: 600000,
        start_time_ms: Some(1700000000000),
        chat_messages: vec![msg("alice", "gl hf", 10, 1), msg("bob", "gg", 14000, 2)],
    };
    let (duration, start, chat) = parse_replay_bytes(&replay);
    assert_eq!(duration, 600000);
    assert_eq!(start, 1700000000000);
    assert_eq!(chat.len(), 2);
    assert_eq!(chat[0].sender_name, "alice");
    assert_eq!(chat[0].message, "gl hf");
    assert_eq!(chat[0].frame_number, 10);
    assert_eq!(chat[0].sender_id, 1);
    assert_eq!(chat[0].timestamp_ms, 420);
    assert_eq!(chat[1].timestamp_ms, 588000);
}

#[test]
fn missing_start_time_becomes_zero() {
    let replay = ParsedReplay { duration_ms: 1, start_time_ms: None, chat_messages: vec![] };
    let (_, start, chat) = parse_replay_bytes(&replay);
    assert_eq!(start, 0);
    assert_eq!(chat.len(), 0);
}
