//! Intents that callers submit to a chat room.
use vstd::prelude::*;

use crate::event_store::Replicate;

verus! {

/// A request to change a chat room. Ids are the 128-bit values of UUIDs;
/// timestamps are milliseconds since the Unix epoch, UTC.
#[derive(Clone, Debug)]
pub enum ChatCommand {
    CreateRoom { room_id: u128, name: String, created_by: String },
    JoinRoom { user_id: String, username: String },
    LeaveRoom { user_id: String },
    SendMessage { message_id: u128, user_id: String, content: String, timestamp: i64 },
}

impl Replicate for ChatCommand {
    fn replicate(&self) -> (r: ChatCommand) {
        match self {
            ChatCommand::CreateRoom { room_id, name, created_by } => ChatCommand::CreateRoom {
                room_id: *room_id,
                name: name.clone(),
                created_by: created_by.clone(),
            },
            ChatCommand::JoinRoom { user_id, username } => ChatCommand::JoinRoom {
                user_id: user_id.clone(),
                username: username.clone(),
            },
            ChatCommand::LeaveRoom { user_id } => ChatCommand::LeaveRoom { user_id: user_id.clone() },
            ChatCommand::SendMessage { message_id, user_id, content, timestamp } => {
                ChatCommand::SendMessage {
                    message_id: *message_id,
                    user_id: user_id.clone(),
                    content: content.clone(),
                    timestamp: *timestamp,
                }
            },
        }
    }
}

} // verus!
