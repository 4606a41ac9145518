//! The chat room's events and errors.
use vstd::prelude::*;

use crate::event_store::Replicate;

verus! {

/// A fact about a chat room. Ids are the 128-bit values of UUIDs; timestamps are
/// milliseconds since the Unix epoch, UTC.
#[derive(Clone, Debug)]
pub enum ChatEvent {
    RoomCreated { room_id: u128, name: String, created_by: String, timestamp: i64 },
    UserJoined { user_id: String, username: String, timestamp: i64 },
    UserLeft { user_id: String, timestamp: i64 },
    MessageSent { message_id: u128, user_id: String, content: String, timestamp: i64 },
}

pub open spec fn event_type_name(e: ChatEvent) -> Seq<char> {
    match e {
        ChatEvent::RoomCreated { .. } => "RoomCreated"@,
        ChatEvent::UserJoined { .. } => "UserJoined"@,
        ChatEvent::UserLeft { .. } => "UserLeft"@,
        ChatEvent::MessageSent { .. } => "MessageSent"@,
    }
}

impl ChatEvent {
    /// The name of the event's kind.
    pub fn event_type(&self) -> (r: String)
        ensures
            r@ == event_type_name(*self),
    {
        match self {
            ChatEvent::RoomCreated { .. } => String::from_str("RoomCreated"),
            ChatEvent::UserJoined { .. } => String::from_str("UserJoined"),
            ChatEvent::UserLeft { .. } => String::from_str("UserLeft"),
            ChatEvent::MessageSent { .. } => String::from_str("MessageSent"),
        }
    }

    /// The version of the payload schema.
    pub fn event_version(&self) -> (r: String)
        ensures
            r@ == "1.0"@,
    {
        String::from_str("1.0")
    }
}

impl Replicate for ChatEvent {
    fn replicate(&self) -> (r: ChatEvent) {
        match self {
            ChatEvent::RoomCreated { room_id, name, created_by, timestamp } => ChatEvent::RoomCreated {
                room_id: *room_id,
                name: name.clone(),
                created_by: created_by.clone(),
                timestamp: *timestamp,
            },
            ChatEvent::UserJoined { user_id, username, timestamp } => ChatEvent::UserJoined {
                user_id: user_id.clone(),
                username: username.clone(),
                timestamp: *timestamp,
            },
            ChatEvent::UserLeft { user_id, timestamp } => ChatEvent::UserLeft {
                user_id: user_id.clone(),
                timestamp: *timestamp,
            },
            ChatEvent::MessageSent { message_id, user_id, content, timestamp } => ChatEvent::MessageSent {
                message_id: *message_id,
                user_id: user_id.clone(),
                content: content.clone(),
                timestamp: *timestamp,
            },
        }
    }
}

/// A rule of the chat room that a command broke, with a message.
#[derive(Clone, Debug)]
pub enum ChatError {
    RoomAlreadyExists(String),
    RoomNotFound(String),
    UserAlreadyInRoom(String),
    UserNotInRoom(String),
    InvalidOperation(String),
    Unknown(String),
}

/// A `ChatError` with its message as text.
pub enum ChatErrorView {
    RoomAlreadyExists(Seq<char>),
    RoomNotFound(Seq<char>),
    UserAlreadyInRoom(Seq<char>),
    UserNotInRoom(Seq<char>),
    InvalidOperation(Seq<char>),
    Unknown(Seq<char>),
}

impl View for ChatError {
    type V = ChatErrorView;

    open spec fn view(&self) -> ChatErrorView {
        match self {
            ChatError::RoomAlreadyExists(m) => ChatErrorView::RoomAlreadyExists(m@),
            ChatError::RoomNotFound(m) => ChatErrorView::RoomNotFound(m@),
            ChatError::UserAlreadyInRoom(m) => ChatErrorView::UserAlreadyInRoom(m@),
            ChatError::UserNotInRoom(m) => ChatErrorView::UserNotInRoom(m@),
            ChatError::InvalidOperation(m) => ChatErrorView::InvalidOperation(m@),
            ChatError::Unknown(m) => ChatErrorView::Unknown(m@),
        }
    }
}

pub open spec fn error_text(e: ChatErrorView) -> Seq<char> {
    match e {
        ChatErrorView::RoomAlreadyExists(m) => "Room already exists: "@ + m,
        ChatErrorView::RoomNotFound(m) => "Room not found: "@ + m,
        ChatErrorView::UserAlreadyInRoom(m) => "User already in room: "@ + m,
        ChatErrorView::UserNotInRoom(m) => "User not in room: "@ + m,
        ChatErrorView::InvalidOperation(m) => "Invalid operation: "@ + m,
        ChatErrorView::Unknown(m) => "Unknown error: "@ + m,
    }
}

impl ChatError {
    /// An error of the `Unknown` kind with the given message.
    pub fn from(msg: &str) -> (r: ChatError)
        ensures
            r@ == ChatErrorView::Unknown(msg@),
    {
        ChatError::Unknown(msg.to_owned())
    }

    /// The error as text: its kind, then its message.
    pub fn to_string(&self) -> (r: String)
        ensures
            r@ == error_text(self@),
    {
        let (mut text, m) = match self {
            ChatError::RoomAlreadyExists(m) => (String::from_str("Room already exists: "), m),
            ChatError::RoomNotFound(m) => (String::from_str("Room not found: "), m),
            ChatError::UserAlreadyInRoom(m) => (String::from_str("User already in room: "), m),
            ChatError::UserNotInRoom(m) => (String::from_str("User not in room: "), m),
            ChatError::InvalidOperation(m) => (String::from_str("Invalid operation: "), m),
            ChatError::Unknown(m) => (String::from_str("Unknown error: "), m),
        };
        text.append(m.as_str());
        text
    }
}

/// Why a command was not carried out.
#[derive(Clone, Debug)]
pub enum AggregateError<E> {
    /// The entity refused the command.
    UserError(E),
    /// Another writer committed to the entity since its state was loaded.
    AggregateConflict,
    /// The log cannot number more events.
    StorageExhausted,
}

} // verus!
