//! Finalizing a decoded replay for the consumer. Decoding the replay
//! file's binary format is an external collaborator's job; this module
//! fixes what is computed from the decoded quantities: the duration is
//! passed through, a missing start time becomes zero, and each chat
//! message is stamped with its frame's time at 42 ms per frame.

use vstd::prelude::*;

verus! {

/// Milliseconds per game frame.
pub const MS_PER_FRAME: u32 = 42;

/// One chat message as the replay decoder yields it.
#[derive(Debug)]
pub struct ChatMessage {
    pub sender_name: String,
    pub message: String,
    pub frame_number: u32,
    pub sender_id: u8,
}

/// One chat message as the consumer receives it: the same fields plus
/// the frame's timestamp in milliseconds.
#[derive(Debug)]
pub struct ParsedChatMessage {
    pub sender_name: String,
    pub message: String,
    pub frame_number: u32,
    pub sender_id: u8,
    pub timestamp_ms: u32,
}

/// What the replay decoder yields: the game duration, the start time in
/// milliseconds since the epoch (absent when the clock predates it), and
/// the chat messages.
#[derive(Debug)]
pub struct ParsedReplay {
    pub duration_ms: u32,
    pub start_time_ms: Option<u64>,
    pub chat_messages: Vec<ChatMessage>,
}

/// Turn a decoded replay into the consumer's response: duration, start
/// time (zero when absent), and the stamped chat messages in order.
pub fn parse_replay_bytes(replay: &ParsedReplay) -> (r: (u32, u64, Vec<ParsedChatMessage>))
    requires
        forall|i: int| 0 <= i < replay.chat_messages@.len()
            ==> replay.chat_messages@[i].frame_number * MS_PER_FRAME <= u32::MAX,
    ensures
        r.0 == replay.duration_ms,
        r.1 == match replay.start_time_ms {
            Some(t) => t,
            None => 0u64,
        },
        r.2@.len() == replay.chat_messages@.len(),
        forall|i: int| 0 <= i < r.2@.len() ==> {
            let src = replay.chat_messages@[i];
            let dst = #[trigger] r.2@[i];
            &&& dst.sender_name@ == src.sender_name@
            &&& dst.message@ == src.message@
            &&& dst.frame_number == src.frame_number
            &&& dst.sender_id == src.sender_id
            &&& dst.timestamp_ms == src.frame_number * MS_PER_FRAME
        },
{
    let start_time_ms = match replay.start_time_ms {
        Some(t) => t,
        None => 0,
    };
    let mut chat: Vec<ParsedChatMessage> = Vec::new();
    let n = replay.chat_messages.len();
    for i in 0..n
        invariant
            n == replay.chat_messages@.len(),
            forall|k: int| 0 <= k < n ==> replay.chat_messages@[k].frame_number * MS_PER_FRAME
                <= u32::MAX,
            chat@.len() == i,
            forall|k: int| 0 <= k < i ==> {
                let src = replay.chat_messages@[k];
                let dst = #[trigger] chat@[k];
                &&& dst.sender_name@ == src.sender_name@
                &&& dst.message@ == src.message@
                &&& dst.frame_number == src.frame_number
                &&& dst.sender_id == src.sender_id
                &&& dst.timestamp_ms == src.frame_number * MS_PER_FRAME
            },
    {
        let m = &replay.chat_messages[i];
        chat.push(
            ParsedChatMessage {
                sender_name: m.sender_name.clone(),
                message: m.message.clone(),
                frame_number: m.frame_number,
                sender_id: m.sender_id,
                timestamp_ms: m.frame_number * MS_PER_FRAME,
            },
        );
    }
    (replay.duration_ms, start_time_ms, chat)
}

} // verus!
