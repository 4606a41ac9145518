//! Properties that hold across calls: replay, numbering, concurrency and the
//! read model.
use vstd::prelude::*;

use crate::aggregate::{
    apply_event, initial_room, lemma_apply_event_well_formed, replay, replay_from, well_formed_room,
    RoomState,
};
use crate::event_store::{
    lemma_stream_append, numbered, payloads, EnvelopeView, PostgresEventStore, Replicate,
};
use crate::account::{
    account_balance, apply_account, decide_account, AccountCommand, AccountError, AccountEvent,
};
use crate::events::ChatEvent;
use crate::framework::{ChatAggregateContext, ChatRoomFramework};
use crate::participants::{has_user, lemma_has_user_join, lemma_has_user_push, lemma_has_user_remove};
use crate::views::{fold_row, row_of, RoomRow};

verus! {

/// Replaying a stream from a state in two parts, one after the other, gives
/// what replaying it whole gives.
pub proof fn lemma_replay_from_append(s: RoomState, a: Seq<ChatEvent>, b: Seq<ChatEvent>)
    ensures
        replay_from(s, a + b) == replay_from(replay_from(s, a), b),
    decreases b.len(),
{
    if b.len() == 0 {
        assert(a + b =~= a);
    } else {
        assert((a + b).drop_last() =~= a + b.drop_last());
        lemma_replay_from_append(s, a, b.drop_last());
    }
}

/// The state after events `1..=n` is the state after events `1..n` with
/// event `n` applied, and more generally after any split of the stream.
pub proof fn lemma_replay_split(events: Seq<ChatEvent>, k: int)
    requires
        0 <= k <= events.len(),
    ensures
        replay(events) == replay_from(
            replay(events.subrange(0, k)),
            events.subrange(k, events.len() as int),
        ),
        events.len() > 0 ==> replay(events) == apply_event(
            replay(events.drop_last()),
            events.last(),
        ),
{
    lemma_replay_from_append(
        initial_room(),
        events.subrange(0, k),
        events.subrange(k, events.len() as int),
    );
    assert(events.subrange(0, k) + events.subrange(k, events.len() as int) =~= events);
}

/// Replaying any events from the initial state leaves no two participants
/// with the same user id.
pub proof fn lemma_replay_well_formed(events: Seq<ChatEvent>)
    ensures
        well_formed_room(replay(events)),
    decreases events.len(),
{
    if events.len() > 0 {
        lemma_replay_well_formed(events.drop_last());
        lemma_apply_event_well_formed(replay(events.drop_last()), events.last());
    }
}

/// Two loads of the same committed events give the same state.
pub proof fn lemma_replay_deterministic(
    a: ChatAggregateContext,
    b: ChatAggregateContext,
    events: Seq<EnvelopeView<ChatEvent>>,
)
    requires
        a.state() == replay(payloads(events)),
        b.state() == replay(payloads(events)),
    ensures
        a.state() == b.state(),
{
}

/// In a well-formed log the events of every entity are numbered exactly
/// `1..=N`, in order, with no gap and no repeat.
pub proof fn lemma_sequence_numbers<E: Replicate>(store: PostgresEventStore<E>, id: u128)
    requires
        store.wf(),
    ensures
        store.stream(id).map_values(|e: EnvelopeView<E>| e.sequence) == Seq::new(
            store.stream(id).len(),
            |i: int| i + 1,
        ),
{
    let s = store.stream(id);
    assert forall|i: int| 0 <= i < s.len() implies #[trigger] s[i].sequence == i + 1 by {}
    assert(s.map_values(|e: EnvelopeView<E>| e.sequence) =~= Seq::new(s.len(), |i: int| i + 1));
}

/// Of two writers that loaded entity `id` at the same sequence number and
/// both decided on events, once the first has appended its (non-empty) batch
/// the stream is past that number, so the second one's append is refused
/// with a conflict.
pub proof fn lemma_second_writer_conflicts<E: Replicate>(
    before: PostgresEventStore<E>,
    after: PostgresEventStore<E>,
    id: u128,
    events: Seq<E>,
    metadata: Seq<(String, String)>,
)
    requires
        events.len() > 0,
        after.entries() == before.entries() + numbered(
            id,
            before.stream(id).len() as int,
            events,
            metadata,
        ),
    ensures
        after.stream(id).len() == before.stream(id).len() + events.len(),
        after.stream(id).len() != before.stream(id).len(),
{
    let added = numbered(id, before.stream(id).len() as int, events, metadata);
    lemma_stream_append(before.entries(), added, id, id);
}

/// Once the commits of a room have been dispatched, its row in the read model
/// is the fold of every committed event of the room, in order; where the
/// stream opens the room once, that row shows the room's state.
pub proof fn lemma_read_model_converges(f: ChatRoomFramework, id: u128)
    requires
        f.wf(),
    ensures
        row_of(f.read_model().rows(), id) == fold_row(None, id, payloads(f.log().stream(id))),
        opens_room(payloads(f.log().stream(id)), id) ==> (row_of(f.read_model().rows(), id) matches Some(
            row,
        ) && row_agrees(row, f.room_state(id))),
{
    if opens_room(payloads(f.log().stream(id)), id) {
        lemma_row_shows_state(payloads(f.log().stream(id)), id);
    }
}

/// Whether `events` open room `id` once: the first starts that room and no
/// later one starts a room.
pub open spec fn opens_room(events: Seq<ChatEvent>, id: u128) -> bool {
    &&& events.len() > 0
    &&& events[0] matches ChatEvent::RoomCreated { room_id, .. } && room_id == id
    &&& forall|i: int| 1 <= i < events.len() ==> !(#[trigger] events[i] is RoomCreated)
}

/// Whether a read-model row shows the room state `s`: the same id, name and
/// creation time, the same participant user ids, and the same messages in
/// the same order.
pub open spec fn row_agrees(row: RoomRow, s: RoomState) -> bool {
    &&& s.room_id == Some(row.room_id)
    &&& s.name == row.name@
    &&& s.created_at == Some(row.created_at)
    &&& forall|v: Seq<char>|
        #![trigger has_user(row.participants, v)]
        #![trigger has_user(s.participants, v)]
        has_user(row.participants, v) <==> has_user(s.participants, v)
    &&& row.messages.len() == s.messages.len()
    &&& forall|k: int|
        0 <= k < s.messages.len() ==> {
            &&& row.messages[k].id == (#[trigger] s.messages[k]).id
            &&& row.messages[k].user_id == s.messages[k].user_id
            &&& row.messages[k].content == s.messages[k].content
            &&& row.messages[k].timestamp == s.messages[k].timestamp
        }
}

/// For a stream that opens its room once, the row that the read model folds
/// from it shows the state that replaying it gives.
pub proof fn lemma_row_shows_state(events: Seq<ChatEvent>, id: u128)
    requires
        opens_room(events, id),
    ensures
        fold_row(None, id, events) matches Some(row) && row_agrees(row, replay(events)),
    decreases events.len(),
{
    let init = events.drop_last();
    let e = events.last();
    if events.len() == 1 {
        assert(init =~= Seq::<ChatEvent>::empty());
        assert(e == events[0]);
        let s = replay(events);
        let row = fold_row(None, id, events)->Some_0;
        assert forall|v: Seq<char>| has_user(row.participants, v) <==> has_user(
            s.participants,
            v,
        ) by {
            if let ChatEvent::RoomCreated { created_by, .. } = e {
                let c = crate::participants::UserInfo { user_id: created_by, username: created_by };
                lemma_has_user_push(Seq::empty(), c, v);
                assert(row.participants =~= Seq::<crate::participants::UserInfo>::empty().push(c));
            }
        }
    } else {
        assert forall|i: int| 1 <= i < init.len() implies !(#[trigger] init[i] is RoomCreated) by {
            assert(init[i] == events[i]);
        }
        assert(init[0] == events[0]);
        lemma_row_shows_state(init, id);
        assert(!(events[events.len() - 1] is RoomCreated));
        let s0 = replay(init);
        let row0 = fold_row(None, id, init)->Some_0;
        let s = replay(events);
        let row = fold_row(None, id, events)->Some_0;
        assert forall|v: Seq<char>| has_user(row.participants, v) <==> has_user(
            s.participants,
            v,
        ) by {
            match e {
                ChatEvent::UserJoined { user_id, username, .. } => {
                    let p = crate::participants::UserInfo { user_id, username };
                    lemma_has_user_push(row0.participants, p, v);
                    lemma_has_user_join(s0.participants, p, v);
                    assert(has_user(row0.participants, v) == has_user(s0.participants, v));
                },
                ChatEvent::UserLeft { user_id, .. } => {
                    lemma_has_user_remove(row0.participants, user_id@, v);
                    lemma_has_user_remove(s0.participants, user_id@, v);
                    assert(has_user(row0.participants, v) == has_user(s0.participants, v));
                },
                _ => {
                    assert(has_user(row0.participants, v) == has_user(s0.participants, v));
                },
            }
        }
        assert forall|k: int| 0 <= k < s.messages.len() implies {
            &&& row.messages[k].id == (#[trigger] s.messages[k]).id
            &&& row.messages[k].user_id == s.messages[k].user_id
            &&& row.messages[k].content == s.messages[k].content
            &&& row.messages[k].timestamp == s.messages[k].timestamp
        } by {
            if k < s0.messages.len() {
                assert(s.messages[k] == s0.messages[k]);
                assert(row.messages[k] == row0.messages[k]);
                assert(row0.messages[k].id == s0.messages[k].id);
            }
        }
    }
}

/// A withdrawal larger than the balance is refused with `InsufficientFunds`
/// and yields no event; one no larger than the balance yields one event,
/// which leaves the difference.
pub proof fn lemma_overdraft_refused(balance: nat, amount: u64)
    ensures
        amount > balance ==> decide_account(balance, AccountCommand::WithdrawMoney { amount })
            == Err::<Seq<AccountEvent>, AccountError>(AccountError::InsufficientFunds),
        amount <= balance ==> decide_account(balance, AccountCommand::WithdrawMoney { amount })
            == Ok::<Seq<AccountEvent>, AccountError>(seq![AccountEvent::MoneyWithdrawn { amount }])
            && apply_account(balance, AccountEvent::MoneyWithdrawn { amount }) == balance - amount,
{
}

/// A balance replayed from any events stays within what a `u64` holds.
pub proof fn lemma_balance_in_range(events: Seq<AccountEvent>)
    ensures
        account_balance(events) <= u64::MAX,
    decreases events.len(),
{
    if events.len() > 0 {
        lemma_balance_in_range(events.drop_last());
    }
}

} // verus!
