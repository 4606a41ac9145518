use chat_app::aggregate::{ChatRoom, ChatServices};
use chat_app::commands::ChatCommand;
use chat_app::events::{ChatError, ChatEvent};
use uuid::Uuid;

fn now() -> i64 {
    chrono::Utc::now().timestamp_millis()
}

fn room_with(events: Vec<ChatEvent>) -> ChatRoom {
    let mut room = ChatRoom::new();
    for e in events {
        room.apply(e);
    }
    room
}

#[test]
fn test_create_room() {
    let room_id = Uuid::new_v4().as_u128();
    let command = ChatCommand::CreateRoom {
        room_id,
        name: "Test Room".to_string(),
        created_by: "user1".to_string(),
    };

    let events = ChatRoom::new().handle(command, &ChatServices, now()).unwrap();
    assert_eq!(events.len(), 1);
    match &events[0] {
        ChatEvent::RoomCreated { room_id: r, name, created_by, timestamp: _ } => {
            assert_eq!(r, &room_id);
            assert_eq!(name, "Test Room");
            assert_eq!(created_by, "user1");
        }
        other => panic!("unexpected event {:?}", other),
    }
}

#[test]
fn test_join_room() {
    let room_id = Uuid::new_v4().as_u128();
    let previous = ChatEvent::RoomCreated {
        room_id,
        name: "Test Room".to_string(),
        created_by: "user1".to_string(),
        timestamp: now(),
    };

    let command = ChatCommand::JoinRoom {
        user_id: "user2".to_string(),
        username: "User Two".to_string(),
    };

    let events = room_with(vec![previous]).handle(command, &ChatServices, now()).unwrap();
    assert_eq!(events.len(), 1);
    match &events[0] {
        ChatEvent::UserJoined { user_id, username, timestamp: _ } => {
            assert_eq!(user_id, "user2");
            assert_eq!(username, "User Two");
        }
        other => panic!("unexpected event {:?}", other),
    }
}

#[test]
fn test_send_message() {
    let room_id = Uuid::new_v4().as_u128();
    let message_id = Uuid::new_v4().as_u128();
    let timestamp = now();

    let previous_events = vec![
        ChatEvent::RoomCreated {
            room_id,
            name: "Test Room".to_string(),
            created_by: "user1".to_string(),
            timestamp: now(),
        },
        ChatEvent::UserJoined {
            user_id: "user2".to_string(),
            username: "User Two".to_string(),
            timestamp: now(),
        },
    ];

    let command = ChatCommand::SendMessage {
        message_id,
        user_id: "user2".to_string(),
        content: "Hello, world!".to_string(),
        timestamp,
    };

    let events = room_with(previous_events).handle(command, &ChatServices, now()).unwrap();
    assert_eq!(events.len(), 1);
    match &events[0] {
        ChatEvent::MessageSent { message_id: m, user_id, content, timestamp: t } => {
            assert_eq!(m, &message_id);
            assert_eq!(user_id, "user2");
            assert_eq!(content, "Hello, world!");
            assert_eq!(t, &timestamp);
        }
        other => panic!("unexpected event {:?}", other),
    }
}

#[test]
fn test_leave_room() {
    let room_id = Uuid::new_v4().as_u128();
    let previous_events = vec![
        ChatEvent::RoomCreated {
            room_id,
            name: "Test Room".to_string(),
            created_by: "user1".to_string(),
            timestamp: now(),
        },
        ChatEvent::UserJoined {
            user_id: "user2".to_string(),
            username: "User Two".to_string(),
            timestamp: now(),
        },
    ];

    let command = ChatCommand::LeaveRoom { user_id: "user2".to_string() };

    let events = room_with(previous_events).handle(command, &ChatServices, now()).unwrap();
    assert_eq!(events.len(), 1);
    match &events[0] {
        ChatEvent::UserLeft { user_id, timestamp: _ } => {
            assert_eq!(user_id, "user2");
        }
        other => panic!("unexpected event {:?}", other),
    }
}

#[test]
fn create_twice_is_refused_with_the_room_id_in_the_message() {
    let room_id: u128 = 0x67e5504410b1426f9247bb680e5fe0c8;
    let room = room_with(vec![ChatEvent::RoomCreated {
        room_id,
        name: "Lobby".to_string(),
        created_by: "user1".to_string(),
        timestamp: 5,
    }]);
    let command = ChatCommand::CreateRoom {
        room_id,
        name: "Lobby".to_string(),
        created_by: "user1".to_string(),
    };
    match room.decide(command, 9) {
        Err(ChatError::RoomAlreadyExists(m)) => {
            assert_eq!(m, "Room with ID 67e55044-10b1-426f-9247-bb680e5fe0c8 already exists")
        }
        other => panic!("unexpected outcome {:?}", other),
    }
}

#[test]
fn commands_on_a_missing_room_are_refused() {
    let room = ChatRoom::default();
    let join = ChatCommand::JoinRoom { user_id: "u".to_string(), username: "U".to_string() };
    let leave = ChatCommand::LeaveRoom { user_id: "u".to_string() };
    let send = ChatCommand::SendMessage {
        message_id: 1,
        user_id: "u".to_string(),
        content: "hi".to_string(),
        timestamp: 3,
    };
    for command in [join, leave, send] {
        match room.decide(command, 7) {
            Err(ChatError::RoomNotFound(m)) => assert_eq!(m, "Room does not exist"),
            other => panic!("unexpected outcome {:?}", other),
        }
    }
}

#[test]
fn joining_twice_and_leaving_when_absent_are_refused() {
    let room = room_with(vec![ChatEvent::RoomCreated {
        room_id: 42,
        name: "R".to_string(),
        created_by: "user1".to_string(),
        timestamp: 1,
    }]);
    let join = ChatCommand::JoinRoom { user_id: "user1".to_string(), username: "One".to_string() };
    match room.decide(join, 2) {
        Err(ChatError::UserAlreadyInRoom(m)) => assert_eq!(m, "User user1 is already in the room"),
        other => panic!("unexpected outcome {:?}", other),
    }
    let leave = ChatCommand::LeaveRoom { user_id: "user9".to_string() };
    match room.decide(leave, 2) {
        Err(ChatError::UserNotInRoom(m)) => assert_eq!(m, "User user9 is not in the room"),
        other => panic!("unexpected outcome {:?}", other),
    }
}

#[test]
fn decide_stamps_events_with_the_given_time() {
    let command = ChatCommand::CreateRoom {
        room_id: 7,
        name: "R".to_string(),
        created_by: "a".to_string(),
    };
    let events = ChatRoom::new().decide(command, 1234).unwrap();
    assert!(matches!(events[0], ChatEvent::RoomCreated { timestamp: 1234, room_id: 7, .. }));
}

#[test]
fn apply_folds_participants_and_messages() {
    let mut room = room_with(vec![
        ChatEvent::RoomCreated {
            room_id: 1,
            name: "R".to_string(),
            created_by: "user1".to_string(),
            timestamp: 10,
        },
        ChatEvent::UserJoined {
            user_id: "user2".to_string(),
            username: "User Two".to_string(),
            timestamp: 11,
        },
        ChatEvent::MessageSent {
            message_id: 5,
            user_id: "user2".to_string(),
            content: "a".to_string(),
            timestamp: 12,
        },
        ChatEvent::MessageSent {
            message_id: 6,
            user_id: "user1".to_string(),
            content: "b".to_string(),
            timestamp: 13,
        },
    ]);
    assert_eq!(room.room_id, Some(1));
    assert_eq!(room.name, "R");
    assert_eq!(room.created_by.as_deref(), Some("user1"));
    assert_eq!(room.created_at, Some(10));
    let ids: Vec<&str> = room.participants.iter().map(|p| p.user_id.as_str()).collect();
    assert_eq!(ids, vec!["user1", "user2"]);
    let contents: Vec<&str> = room.messages.iter().map(|m| m.content.as_str()).collect();
    assert_eq!(contents, vec!["a", "b"]);

    room.apply(ChatEvent::UserLeft { user_id: "user1".to_string(), timestamp: 14 });
    let ids: Vec<&str> = room.participants.iter().map(|p| p.user_id.as_str()).collect();
    assert_eq!(ids, vec!["user2"]);
    // Removing an absent user changes nothing and does not fail.
    room.apply(ChatEvent::UserLeft { user_id: "nobody".to_string(), timestamp: 15 });
    assert_eq!(room.participants.len(), 1);
}

#[test]
fn event_names_and_version() {
    let e = ChatEvent::UserLeft { user_id: "u".to_string(), timestamp: 0 };
    assert_eq!(e.event_type(), "UserLeft");
    assert_eq!(e.event_version(), "1.0");
    let e = ChatEvent::MessageSent {
        message_id: 0,
        user_id: "u".to_string(),
        content: String::new(),
        timestamp: 0,
    };
    assert_eq!(e.event_type(), "MessageSent");
    assert_eq!(ChatRoom::aggregate_type(), "ChatRoom");
}

#[test]
fn error_text_and_from() {
    let e = ChatError::from("boom");
    assert!(matches!(&e, ChatError::Unknown(m) if m == "boom"));
    assert_eq!(e.to_string(), "Unknown error: boom");
    let e = ChatError::UserNotInRoom("User x is not in the room".to_string());
    assert_eq!(e.to_string(), "User not in room: User x is not in the room");
}

#[test]
fn joining_again_records_the_new_name() {
    let mut room = room_with(vec![
        ChatEvent::RoomCreated {
            room_id: 1,
            name: "R".to_string(),
            created_by: "user1".to_string(),
            timestamp: 1,
        },
        ChatEvent::UserJoined {
            user_id: "user2".to_string(),
            username: "User Two".to_string(),
            timestamp: 2,
        },
    ]);
    room.apply(ChatEvent::UserJoined {
        user_id: "user2".to_string(),
        username: "Second".to_string(),
        timestamp: 3,
    });
    assert_eq!(room.participants.len(), 2);
    assert_eq!(room.participants[1].user_id, "user2");
    assert_eq!(room.participants[1].username, "Second");
}
