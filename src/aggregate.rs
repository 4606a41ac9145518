//! The chat room entity: its state, the decisions on commands, and the
//! reduction of events into state.
use vstd::prelude::*;

use crate::commands::ChatCommand;
use crate::events::{ChatError, ChatErrorView, ChatEvent};
use crate::external::{hyphenated, uuid_text};
use crate::participants::{
    add_user, contains_user, has_user, insert_user, join, join_user, lemma_add_user_unique,
    lemma_remove_user_unique, remove_user, retain_others, unique_users, UserInfo,
};

verus! {

/// A message posted in a room.
#[derive(Clone, Debug)]
pub struct Message {
    pub id: u128,
    pub user_id: String,
    pub content: String,
    pub timestamp: i64,
}

/// Collaborator handed to command handling; its effects never decide a command.
#[derive(Clone, Debug)]
pub struct ChatServices;

/// The state of a chat room, rebuilt by replaying its events.
#[derive(Clone, Debug)]
pub struct ChatRoom {
    pub room_id: Option<u128>,
    pub name: String,
    pub created_by: Option<String>,
    pub participants: Vec<UserInfo>,
    pub messages: Vec<Message>,
    pub created_at: Option<i64>,
}

/// What a `ChatRoom` holds, as values.
pub struct RoomState {
    pub room_id: Option<u128>,
    pub name: Seq<char>,
    pub created_by: Option<Seq<char>>,
    pub participants: Seq<UserInfo>,
    pub messages: Seq<Message>,
    pub created_at: Option<i64>,
}

impl View for ChatRoom {
    type V = RoomState;

    open spec fn view(&self) -> RoomState {
        RoomState {
            room_id: self.room_id,
            name: self.name@,
            created_by: match self.created_by {
                Some(c) => Some(c@),
                None => None,
            },
            participants: self.participants@,
            messages: self.messages@,
            created_at: self.created_at,
        }
    }
}

/// The state of a room before any event.
pub open spec fn initial_room() -> RoomState {
    RoomState {
        room_id: None,
        name: Seq::empty(),
        created_by: None,
        participants: Seq::empty(),
        messages: Seq::empty(),
        created_at: None,
    }
}

/// The state after one event.
pub open spec fn apply_event(s: RoomState, e: ChatEvent) -> RoomState {
    match e {
        ChatEvent::RoomCreated { room_id, name, created_by, timestamp } => RoomState {
            room_id: Some(room_id),
            name: name@,
            created_by: Some(created_by@),
            participants: add_user(
                s.participants,
                UserInfo { user_id: created_by, username: created_by },
            ),
            created_at: Some(timestamp),
            ..s
        },
        ChatEvent::UserJoined { user_id, username, .. } => RoomState {
            participants: join_user(s.participants, UserInfo { user_id, username }),
            ..s
        },
        ChatEvent::UserLeft { user_id, .. } => RoomState {
            participants: remove_user(s.participants, user_id@),
            ..s
        },
        ChatEvent::MessageSent { message_id, user_id, content, timestamp } => RoomState {
            messages: s.messages.push(Message { id: message_id, user_id, content, timestamp }),
            ..s
        },
    }
}

/// Whether no two participants of the room share a user id.
pub open spec fn well_formed_room(s: RoomState) -> bool {
    unique_users(s.participants)
}

/// Every event keeps the participants' user ids distinct.
pub proof fn lemma_apply_event_well_formed(s: RoomState, e: ChatEvent)
    requires
        well_formed_room(s),
    ensures
        well_formed_room(apply_event(s, e)),
{
    match e {
        ChatEvent::RoomCreated { created_by, .. } => {
            lemma_add_user_unique(
                s.participants,
                UserInfo { user_id: created_by, username: created_by },
            );
        },
        ChatEvent::UserJoined { user_id, username, .. } => {
            lemma_add_user_unique(s.participants, UserInfo { user_id, username });
        },
        ChatEvent::UserLeft { user_id, .. } => {
            lemma_remove_user_unique(s.participants, user_id@);
        },
        ChatEvent::MessageSent { .. } => {},
    }
}

/// The state after replaying `events` in order from `s`.
pub open spec fn replay_from(s: RoomState, events: Seq<ChatEvent>) -> RoomState
    decreases events.len(),
{
    if events.len() == 0 {
        s
    } else {
        apply_event(replay_from(s, events.drop_last()), events.last())
    }
}

/// The state of a room whose stream is `events`.
pub open spec fn replay(events: Seq<ChatEvent>) -> RoomState {
    replay_from(initial_room(), events)
}

pub open spec fn room_exists_message(room_id: u128) -> Seq<char> {
    "Room with ID "@ + hyphenated(room_id) + " already exists"@
}

pub open spec fn already_in_room_message(user_id: Seq<char>) -> Seq<char> {
    "User "@ + user_id + " is already in the room"@
}

pub open spec fn not_in_room_message(user_id: Seq<char>) -> Seq<char> {
    "User "@ + user_id + " is not in the room"@
}

/// The decision on `c` in state `s`, with `now` as the time of the decision:
/// the events to record, or the rule that was broken.
pub open spec fn decide_command(s: RoomState, c: ChatCommand, now: i64) -> Result<
    Seq<ChatEvent>,
    ChatErrorView,
> {
    match c {
        ChatCommand::CreateRoom { room_id, name, created_by } => {
            if s.room_id is Some {
                Err(ChatErrorView::RoomAlreadyExists(room_exists_message(room_id)))
            } else {
                Ok(seq![ChatEvent::RoomCreated { room_id, name, created_by, timestamp: now }])
            }
        },
        ChatCommand::JoinRoom { user_id, username } => {
            if s.room_id is None {
                Err(ChatErrorView::RoomNotFound("Room does not exist"@))
            } else if has_user(s.participants, user_id@) {
                Err(ChatErrorView::UserAlreadyInRoom(already_in_room_message(user_id@)))
            } else {
                Ok(seq![ChatEvent::UserJoined { user_id, username, timestamp: now }])
            }
        },
        ChatCommand::LeaveRoom { user_id } => {
            if s.room_id is None {
                Err(ChatErrorView::RoomNotFound("Room does not exist"@))
            } else if !has_user(s.participants, user_id@) {
                Err(ChatErrorView::UserNotInRoom(not_in_room_message(user_id@)))
            } else {
                Ok(seq![ChatEvent::UserLeft { user_id, timestamp: now }])
            }
        },
        ChatCommand::SendMessage { message_id, user_id, content, timestamp } => {
            if s.room_id is None {
                Err(ChatErrorView::RoomNotFound("Room does not exist"@))
            } else if !has_user(s.participants, user_id@) {
                Err(ChatErrorView::UserNotInRoom(not_in_room_message(user_id@)))
            } else {
                Ok(seq![ChatEvent::MessageSent { message_id, user_id, content, timestamp }])
            }
        },
    }
}

/// Whether an executable outcome is the decided one.
pub open spec fn same_outcome(
    r: Result<Vec<ChatEvent>, ChatError>,
    d: Result<Seq<ChatEvent>, ChatErrorView>,
) -> bool {
    match (r, d) {
        (Ok(v), Ok(s)) => v@ == s,
        (Err(e), Err(f)) => e@ == f,
        _ => false,
    }
}

fn user_message(prefix: &str, user_id: &String, suffix: &str) -> (r: String)
    ensures
        r@ == prefix@ + user_id@ + suffix@,
{
    let mut m = String::from_str(prefix);
    m.append(user_id.as_str());
    m.append(suffix);
    m
}

fn single(e: ChatEvent) -> (r: Vec<ChatEvent>)
    ensures
        r@ == seq![e],
{
    let mut v: Vec<ChatEvent> = Vec::new();
    v.push(e);
    assert(v@ =~= seq![e]);
    v
}

impl Default for ChatRoom {
    fn default() -> (r: ChatRoom)
        ensures
            r@ == initial_room(),
            r.wf(),
    {
        ChatRoom::new()
    }
}

impl ChatRoom {
    /// Whether no two participants share a user id.
    pub open spec fn wf(&self) -> bool {
        well_formed_room(self@)
    }

    /// A room before any event.
    pub fn new() -> (r: ChatRoom)
        ensures
            r@ == initial_room(),
            r.wf(),
    {
        ChatRoom {
            room_id: None,
            name: String::new(),
            created_by: None,
            participants: Vec::new(),
            messages: Vec::new(),
            created_at: None,
        }
    }

    /// The name of this entity kind.
    pub fn aggregate_type() -> (r: String)
        ensures
            r@ == "ChatRoom"@,
    {
        String::from_str("ChatRoom")
    }

    /// Decides on `command` at time `now`: checks every rule first, then
    /// returns all the events or the error, never both.
    pub fn decide(&self, command: ChatCommand, now: i64) -> (r: Result<Vec<ChatEvent>, ChatError>)
        ensures
            same_outcome(r, decide_command(self@, command, now)),
    {
        proof {
            reveal_strlit("Room does not exist");
        }
        match command {
            ChatCommand::CreateRoom { room_id, name, created_by } => {
                if self.room_id.is_some() {
                    let mut m = String::from_str("Room with ID ");
                    m.append(uuid_text(room_id).as_str());
                    m.append(" already exists");
                    return Err(ChatError::RoomAlreadyExists(m));
                }
                Ok(single(ChatEvent::RoomCreated { room_id, name, created_by, timestamp: now }))
            },
            ChatCommand::JoinRoom { user_id, username } => {
                if self.room_id.is_none() {
                    return Err(ChatError::RoomNotFound(String::from_str("Room does not exist")));
                }
                if contains_user(&self.participants, &user_id) {
                    let m = user_message("User ", &user_id, " is already in the room");
                    return Err(ChatError::UserAlreadyInRoom(m));
                }
                Ok(single(ChatEvent::UserJoined { user_id, username, timestamp: now }))
            },
            ChatCommand::LeaveRoom { user_id } => {
                if self.room_id.is_none() {
                    return Err(ChatError::RoomNotFound(String::from_str("Room does not exist")));
                }
                if !contains_user(&self.participants, &user_id) {
                    let m = user_message("User ", &user_id, " is not in the room");
                    return Err(ChatError::UserNotInRoom(m));
                }
                Ok(single(ChatEvent::UserLeft { user_id, timestamp: now }))
            },
            ChatCommand::SendMessage { message_id, user_id, content, timestamp } => {
                if self.room_id.is_none() {
                    return Err(ChatError::RoomNotFound(String::from_str("Room does not exist")));
                }
                if !contains_user(&self.participants, &user_id) {
                    let m = user_message("User ", &user_id, " is not in the room");
                    return Err(ChatError::UserNotInRoom(m));
                }
                Ok(single(ChatEvent::MessageSent { message_id, user_id, content, timestamp }))
            },
        }
    }

    /// Decides on `command` at time `now`, with the collaborators that
    /// command handling is given; they never take part in the decision.
    pub fn handle(&self, command: ChatCommand, _services: &ChatServices, now: i64) -> (r: Result<
        Vec<ChatEvent>,
        ChatError,
    >)
        ensures
            same_outcome(r, decide_command(self@, command, now)),
    {
        self.decide(command, now)
    }

    /// Folds one event into the state. Never fails.
    pub fn apply(&mut self, event: ChatEvent)
        ensures
            final(self)@ == apply_event(old(self)@, event),
            old(self).wf() ==> final(self).wf(),
    {
        proof {
            if old(self).wf() {
                lemma_apply_event_well_formed(old(self)@, event);
            }
        }
        match event {
            ChatEvent::RoomCreated { room_id, name, created_by, timestamp } => {
                self.room_id = Some(room_id);
                self.name = name;
                self.created_by = Some(created_by.clone());
                let creator = UserInfo { user_id: created_by.clone(), username: created_by };
                insert_user(&mut self.participants, creator);
                self.created_at = Some(timestamp);
            },
            ChatEvent::UserJoined { user_id, username, .. } => {
                join(&mut self.participants, UserInfo { user_id, username });
            },
            ChatEvent::UserLeft { user_id, .. } => {
                retain_others(&mut self.participants, &user_id);
            },
            ChatEvent::MessageSent { message_id, user_id, content, timestamp } => {
                self.messages.push(Message { id: message_id, user_id, content, timestamp });
            },
        }
    }
}

} // verus!
