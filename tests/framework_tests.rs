use chat_app::account::{AccountCommand, AccountError, AccountEvent, AccountFramework};
use chat_app::commands::ChatCommand;
use chat_app::event_store::PostgresEventStore;
use chat_app::events::{AggregateError, ChatError, ChatEvent};
use chat_app::framework::{create_chat_framework, ChatAggregateContext, ChatRoomFramework};
use uuid::Uuid;

fn create(f: &mut ChatRoomFramework, id: u128, name: &str, by: &str) {
    let command = ChatCommand::CreateRoom { room_id: id, name: name.to_string(), created_by: by.to_string() };
    f.execute(id, command, 1000).unwrap();
}

fn join(f: &mut ChatRoomFramework, id: u128, user: &str, name: &str) {
    let command = ChatCommand::JoinRoom { user_id: user.to_string(), username: name.to_string() };
    f.execute(id, command, 1000).unwrap();
}

fn participant_ids(f: &ChatRoomFramework, id: u128) -> Vec<String> {
    let view = f.view_repository().get_room(id).unwrap();
    view.participants.iter().map(|p| p.user_id.clone()).collect()
}

#[test]
fn scenario_create_room_shows_creator() {
    let mut f = create_chat_framework();
    let id = Uuid::new_v4().as_u128();
    let command = ChatCommand::CreateRoom { room_id: id, name: "Test".to_string(), created_by: "user1".to_string() };
    let committed = f.execute(id, command, 1000).unwrap();
    assert_eq!(committed.len(), 1);
    assert!(matches!(committed[0].payload, ChatEvent::RoomCreated { .. }));
    assert_eq!(committed[0].aggregate_id, id);
    assert_eq!(committed[0].sequence, 1);
    let view = f.view_repository().get_room(id).unwrap();
    assert_eq!(view.name, "Test");
    assert_eq!(participant_ids(&f, id), vec!["user1".to_string()]);
    assert!(view.messages.is_empty());
}

#[test]
fn scenario_join_room_adds_participant() {
    let mut f = create_chat_framework();
    let id = Uuid::new_v4().as_u128();
    create(&mut f, id, "Test", "user1");
    let command = ChatCommand::JoinRoom { user_id: "user2".to_string(), username: "User Two".to_string() };
    let committed = f.execute(id, command, 1000).unwrap();
    assert_eq!(committed.len(), 1);
    assert!(matches!(committed[0].payload, ChatEvent::UserJoined { .. }));
    assert_eq!(committed[0].sequence, 2);
    assert_eq!(participant_ids(&f, id), vec!["user1".to_string(), "user2".to_string()]);
}

#[test]
fn scenario_message_from_non_participant_is_refused() {
    let mut f = create_chat_framework();
    let id = Uuid::new_v4().as_u128();
    create(&mut f, id, "Test", "user1");
    let before = f.event_store().load_events(id).len();
    let command = ChatCommand::SendMessage {
        message_id: Uuid::new_v4().as_u128(),
        user_id: "stranger".to_string(),
        content: "hi".to_string(),
        timestamp: 100,
    };
    match f.execute(id, command, 1000) {
        Err(AggregateError::UserError(ChatError::UserNotInRoom(_))) => {}
        other => panic!("unexpected outcome {:?}", other),
    }
    assert_eq!(f.event_store().load_events(id).len(), before);
    assert!(f.view_repository().get_room(id).unwrap().messages.is_empty());
}

#[test]
fn scenario_overdraft_is_refused_and_balance_kept() {
    let mut f = AccountFramework::new();
    let id = Uuid::new_v4().as_u128();
    f.execute(id, AccountCommand::DepositMoney { amount: 100 }).unwrap();
    match f.execute(id, AccountCommand::WithdrawMoney { amount: 150 }) {
        Err(AggregateError::UserError(AccountError::InsufficientFunds)) => {}
        other => panic!("unexpected outcome {:?}", other),
    }
    assert_eq!(f.load_account(id).current_balance(), 100);
    assert_eq!(f.load_account(id).current_sequence(), 1);
}

#[test]
fn scenario_concurrent_deposits_conflict_then_retry() {
    let mut f = AccountFramework::new();
    let id = Uuid::new_v4().as_u128();
    for amount in [10, 20, 30] {
        f.execute(id, AccountCommand::DepositMoney { amount }).unwrap();
    }
    let first = f.load_account(id);
    let second = f.load_account(id);
    assert_eq!(first.current_sequence(), 3);
    assert_eq!(second.current_sequence(), 3);

    let committed = f.submit(first, AccountCommand::DepositMoney { amount: 5 }).unwrap();
    assert_eq!(committed[0].sequence, 4);

    // The second caller's batch, decided at sequence 3, is refused.
    let stale = vec![AccountEvent::MoneyDeposited { amount: 7 }];
    match f.commit(stale, &second, Vec::new()) {
        Err(AggregateError::AggregateConflict) => {}
        other => panic!("unexpected outcome {:?}", other),
    }
    // Submitted through the engine, it is reloaded at sequence 4 and retried.
    let committed = f.submit(second, AccountCommand::DepositMoney { amount: 7 }).unwrap();
    assert_eq!(committed.len(), 1);
    assert_eq!(committed[0].sequence, 5);
    let now = f.load_account(id);
    assert_eq!(now.current_sequence(), 5);
    assert_eq!(now.current_balance(), 72);
}

#[test]
fn two_chat_writers_at_the_same_sequence_one_conflicts() {
    let mut f = create_chat_framework();
    let id = 99;
    create(&mut f, id, "R", "user1");
    let a = f.load_aggregate(id);
    let b = f.load_aggregate(id);
    let ea = a.aggregate().decide(ChatCommand::JoinRoom { user_id: "a".to_string(), username: "A".to_string() }, 1).unwrap();
    let eb = b.aggregate().decide(ChatCommand::JoinRoom { user_id: "b".to_string(), username: "B".to_string() }, 2).unwrap();
    let ok = f.commit(ea, a, Vec::new()).unwrap();
    assert_eq!(ok[0].sequence, 2);
    assert!(matches!(f.commit(eb, b, Vec::new()), Err(AggregateError::AggregateConflict)));
    assert_eq!(participant_ids(&f, id), vec!["user1".to_string(), "a".to_string()]);
}

#[test]
fn sequence_numbers_are_contiguous_per_entity() {
    let mut f = create_chat_framework();
    create(&mut f, 1, "One", "u");
    create(&mut f, 2, "Two", "v");
    for i in 0..4 {
        join(&mut f, 1, &format!("x{}", i), "X");
        join(&mut f, 2, &format!("y{}", i), "Y");
    }
    for id in [1u128, 2u128] {
        let seqs: Vec<usize> = f.event_store().load_events(id).iter().map(|e| e.sequence).collect();
        assert_eq!(seqs, vec![1, 2, 3, 4, 5]);
        assert_eq!(f.event_store().current_sequence(id), 5);
    }
    assert!(f.event_store().load_events(3).is_empty());
}

#[test]
fn replay_twice_gives_the_same_state() {
    let mut f = create_chat_framework();
    create(&mut f, 5, "R", "user1");
    join(&mut f, 5, "user2", "User Two");
    f.execute(5, ChatCommand::LeaveRoom { user_id: "user1".to_string() }, 1000).unwrap();
    let events = f.event_store().load_events(5);
    let a = ChatAggregateContext::new(5, &events);
    let b = ChatAggregateContext::new(5, &events);
    assert_eq!(a.current_sequence(), 3);
    let pa: Vec<String> = a.aggregate().participants.iter().map(|p| p.user_id.clone()).collect();
    let pb: Vec<String> = b.aggregate().participants.iter().map(|p| p.user_id.clone()).collect();
    assert_eq!(pa, pb);
    assert_eq!(pa, vec!["user2".to_string()]);
    assert_eq!(a.aggregate().name, b.aggregate().name);
    assert_eq!(a.aggregate().room_id, Some(5));
}

#[test]
fn read_model_follows_every_commit() {
    let mut f = create_chat_framework();
    create(&mut f, 8, "R", "user1");
    join(&mut f, 8, "user2", "User Two");
    let send = ChatCommand::SendMessage {
        message_id: 77,
        user_id: "user2".to_string(),
        content: "Hello, world!".to_string(),
        timestamp: 500,
    };
    f.execute(8, send, 1000).unwrap();
    f.execute(8, ChatCommand::LeaveRoom { user_id: "user1".to_string() }, 1000).unwrap();
    let view = f.view_repository().get_room(8).unwrap();
    assert_eq!(participant_ids(&f, 8), vec!["user2".to_string()]);
    assert_eq!(view.messages.len(), 1);
    assert_eq!(view.messages[0].id, 77);
    assert_eq!(view.messages[0].username, "User Two");
    assert_eq!(view.messages[0].content, "Hello, world!");
    assert_eq!(view.messages[0].timestamp, 500);
    assert_eq!(f.view_repository().get_all_rooms().len(), 1);
    assert!(f.view_repository().get_room(9).is_none());
}

#[test]
fn create_room_must_name_its_entity() {
    let mut f = create_chat_framework();
    let command = ChatCommand::CreateRoom { room_id: 2, name: "R".to_string(), created_by: "u".to_string() };
    match f.execute(1, command, 1000) {
        Err(AggregateError::UserError(ChatError::InvalidOperation(_))) => {}
        other => panic!("unexpected outcome {:?}", other),
    }
    assert!(f.event_store().load_events(1).is_empty());
    assert!(f.view_repository().get_all_rooms().is_empty());
}

#[test]
fn commit_refuses_an_event_that_starts_another_room() {
    let mut f = create_chat_framework();
    let context = f.load_aggregate(1);
    let events = vec![ChatEvent::RoomCreated { room_id: 2, name: "R".to_string(), created_by: "u".to_string(), timestamp: 0 }];
    assert!(matches!(
        f.commit(events, context, Vec::new()),
        Err(AggregateError::UserError(ChatError::InvalidOperation(_)))
    ));
    assert!(f.event_store().load_events(1).is_empty());
}

#[test]
fn creating_an_existing_room_is_refused() {
    let mut f = create_chat_framework();
    create(&mut f, 3, "R", "u");
    let again = ChatCommand::CreateRoom { room_id: 3, name: "R".to_string(), created_by: "u".to_string() };
    assert!(matches!(f.execute(3, again, 1000), Err(AggregateError::UserError(ChatError::RoomAlreadyExists(_)))));
    assert_eq!(f.event_store().current_sequence(3), 1);
}

#[test]
fn metadata_is_kept_on_every_envelope() {
    let mut f = create_chat_framework();
    let command = ChatCommand::CreateRoom { room_id: 4, name: "R".to_string(), created_by: "u".to_string() };
    let metadata = vec![("trace".to_string(), "abc".to_string())];
    let committed = f.execute_at(4, command, 77, metadata).unwrap();
    assert_eq!(committed[0].metadata, vec![("trace".to_string(), "abc".to_string())]);
    let loaded = f.event_store().load_events(4);
    assert_eq!(loaded[0].metadata, vec![("trace".to_string(), "abc".to_string())]);
    assert!(matches!(loaded[0].payload, ChatEvent::RoomCreated { timestamp: 77, .. }));
}

#[test]
fn empty_batch_appends_nothing() {
    let mut store: PostgresEventStore<AccountEvent> = PostgresEventStore::new();
    let r = store.append(1, 0, Vec::new(), Vec::new()).unwrap();
    assert!(r.is_empty());
    assert_eq!(store.current_sequence(1), 0);
    let r = store.append(1, 0, vec![AccountEvent::MoneyDeposited { amount: 1 }], Vec::new()).unwrap();
    assert_eq!(r[0].sequence, 1);
    assert!(store.append(1, 0, vec![AccountEvent::MoneyDeposited { amount: 1 }], Vec::new()).is_err());
}

#[test]
fn deposit_past_the_limit_is_refused() {
    let mut f = AccountFramework::new();
    f.execute(1, AccountCommand::DepositMoney { amount: u64::MAX }).unwrap();
    match f.execute(1, AccountCommand::DepositMoney { amount: 1 }) {
        Err(AggregateError::UserError(AccountError::BalanceOverflow)) => {}
        other => panic!("unexpected outcome {:?}", other),
    }
    f.execute(1, AccountCommand::WithdrawMoney { amount: u64::MAX }).unwrap();
    assert_eq!(f.load_account(1).current_balance(), 0);
}

#[test]
fn withdrawal_of_the_whole_balance_is_allowed() {
    let mut f = AccountFramework::new();
    f.execute(1, AccountCommand::DepositMoney { amount: 100 }).unwrap();
    f.execute(1, AccountCommand::WithdrawMoney { amount: 100 }).unwrap();
    assert_eq!(f.load_account(1).current_balance(), 0);
    assert_eq!(f.load_account(1).current_sequence(), 2);
}

#[test]
fn stale_chat_command_is_reloaded_and_retried() {
    let mut f = create_chat_framework();
    create(&mut f, 11, "R", "user1");
    let stale = f.load_aggregate(11);
    join(&mut f, 11, "user2", "User Two");
    let send = ChatCommand::SendMessage {
        message_id: 3,
        user_id: "user2".to_string(),
        content: "late".to_string(),
        timestamp: 9,
    };
    // On the stale state user2 is not in the room: that refusal is returned as it is.
    match f.submit(stale, send, 1) {
        Err(AggregateError::UserError(ChatError::UserNotInRoom(_))) => {}
        other => panic!("unexpected outcome {:?}", other),
    }
    let stale = f.load_aggregate(11);
    join(&mut f, 11, "user3", "User Three");
    let leave = ChatCommand::LeaveRoom { user_id: "user1".to_string() };
    let committed = f.submit(stale, leave, 2).unwrap();
    assert_eq!(committed[0].sequence, 4);
    assert_eq!(participant_ids(&f, 11), vec!["user2".to_string(), "user3".to_string()]);
}
