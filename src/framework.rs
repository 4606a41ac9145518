//! The path every chat room command takes: load the room's events, fold them
//! into state, decide, append the new events, and fold them into the read model.
use vstd::prelude::*;

use crate::aggregate::{decide_command, replay, well_formed_room, ChatRoom, RoomState};
use crate::commands::ChatCommand;
use crate::event_store::{
    envelope_views, lemma_numbered, lemma_payloads_append, lemma_stream_append, numbered, payloads,
    EventEnvelope, PostgresEventStore, Replicate, StoreError,
};
use crate::events::{AggregateError, ChatError, ChatErrorView, ChatEvent};
use crate::views::{
    creates_other, fold_row, lemma_fold_row_append, lemma_project_events, project_events, row_of,
    ChatRoomViewRepository, RoomRow,
};

verus! {

/// A room's state as loaded from the log, with the length of its stream.
pub struct ChatAggregateContext {
    aggregate_id: u128,
    current_sequence: usize,
    aggregate: ChatRoom,
}

impl ChatAggregateContext {
    pub closed spec fn id(&self) -> u128 {
        self.aggregate_id
    }

    pub closed spec fn sequence(&self) -> nat {
        self.current_sequence as nat
    }

    pub closed spec fn state(&self) -> RoomState {
        self.aggregate@
    }

    /// Replays `events`, the stream of room `aggregate_id`, from the initial state.
    pub fn new(aggregate_id: u128, events: &Vec<EventEnvelope<ChatEvent>>) -> (r: Self)
        ensures
            r.id() == aggregate_id,
            r.sequence() == events@.len(),
            r.state() == replay(payloads(envelope_views(events@))),
            well_formed_room(r.state()),
    {
        let ghost evs = payloads(envelope_views(events@));
        let mut aggregate = ChatRoom::new();
        let mut i: usize = 0;
        assert(evs.subrange(0, 0) =~= Seq::<ChatEvent>::empty());
        while i < events.len()
            invariant
                i <= events@.len(),
                evs == payloads(envelope_views(events@)),
                evs.len() == events@.len(),
                aggregate@ == replay(evs.subrange(0, i as int)),
                aggregate.wf(),
            decreases events@.len() - i,
        {
            assert(evs.subrange(0, i + 1).drop_last() =~= evs.subrange(0, i as int));
            assert(evs[i as int] == events@[i as int].payload);
            aggregate.apply(events[i].payload.replicate());
            i += 1;
        }
        assert(evs.subrange(0, events@.len() as int) =~= evs);
        ChatAggregateContext { aggregate_id, current_sequence: events.len(), aggregate }
    }

    /// The room's state.
    pub fn aggregate(&self) -> (r: &ChatRoom)
        ensures
            r@ == self.state(),
    {
        &self.aggregate
    }

    /// The room's id.
    pub fn aggregate_id(&self) -> (r: u128)
        ensures
            r == self.id(),
    {
        self.aggregate_id
    }

    /// The number of events the state was built from.
    pub fn current_sequence(&self) -> (r: usize)
        ensures
            r == self.sequence(),
    {
        self.current_sequence
    }
}

pub open spec fn mismatch_message() -> Seq<char> {
    "Room ID does not match the entity it is sent to"@
}

/// The decision on `c` sent to entity `id` in state `s`: a `CreateRoom` must name
/// that entity; otherwise the room decides.
pub open spec fn decide_for(s: RoomState, id: u128, c: ChatCommand, now: i64) -> Result<
    Seq<ChatEvent>,
    ChatErrorView,
> {
    match c {
        ChatCommand::CreateRoom { room_id, .. } => {
            if room_id != id {
                Err(ChatErrorView::InvalidOperation(mismatch_message()))
            } else {
                decide_command(s, c, now)
            }
        },
        _ => decide_command(s, c, now),
    }
}

/// Attempts that `submit` makes before it reports a conflict.
pub const MAX_ATTEMPTS: usize = 3;

/// Whether the row of every room is the fold of the room's committed events.
pub open spec fn converged(rows: Seq<RoomRow>, log: PostgresEventStore<ChatEvent>) -> bool {
    forall|id: u128| #[trigger] row_of(rows, id) == fold_row(None, id, payloads(log.stream(id)))
}

/// Whether some event starts a room other than `id`.
pub open spec fn starts_other_room(events: Seq<ChatEvent>, id: u128) -> bool {
    exists|i: int| 0 <= i < events.len() && creates_other(#[trigger] events[i], id)
}

fn check_rooms(events: &Vec<ChatEvent>, id: u128) -> (r: bool)
    ensures
        r == starts_other_room(events@, id),
{
    let mut i: usize = 0;
    while i < events.len()
        invariant
            i <= events@.len(),
            forall|j: int| 0 <= j < i ==> !creates_other(#[trigger] events@[j], id),
        decreases events@.len() - i,
    {
        if let ChatEvent::RoomCreated { room_id, .. } = &events[i] {
            if *room_id != id {
                return true;
            }
        }
        i += 1;
    }
    false
}

pub open spec fn other_room_message() -> Seq<char> {
    "An event starts a room other than the one it is committed to"@
}

/// The command engine of chat rooms, with its log and its read model.
pub struct ChatRoomFramework {
    store: PostgresEventStore<ChatEvent>,
    views: ChatRoomViewRepository,
}

impl ChatRoomFramework {
    pub closed spec fn log(&self) -> PostgresEventStore<ChatEvent> {
        self.store
    }

    pub closed spec fn read_model(&self) -> ChatRoomViewRepository {
        self.views
    }

    pub open spec fn wf(&self) -> bool {
        &&& self.log().wf()
        &&& converged(self.read_model().rows(), self.log())
    }

    /// The state of room `id` that its committed events give.
    pub open spec fn room_state(&self, id: u128) -> RoomState {
        replay(payloads(self.log().stream(id)))
    }

    /// Whether `context` is a load of an earlier state of this log: the log
    /// only grows, so such a load is a prefix of the room's stream.
    pub open spec fn loaded_earlier(&self, context: ChatAggregateContext) -> bool {
        let s = self.log().stream(context.id());
        &&& context.sequence() <= s.len()
        &&& context.state() == replay(payloads(s.subrange(0, context.sequence() as int)))
    }

    /// An engine with an empty log and an empty read model.
    pub fn new() -> (r: Self)
        ensures
            r.wf(),
            r.log().entries().len() == 0,
            r.read_model().rows().len() == 0,
    {
        let r = ChatRoomFramework {
            store: PostgresEventStore::new(),
            views: ChatRoomViewRepository::new(),
        };
        assert forall|id: u128| #[trigger] row_of(r.read_model().rows(), id) == fold_row(
            None,
            id,
            payloads(r.log().stream(id)),
        ) by {
            assert(r.log().stream(id) =~= Seq::<crate::event_store::EnvelopeView<ChatEvent>>::empty());
            assert(payloads(r.log().stream(id)) =~= Seq::<ChatEvent>::empty());
        }
        r
    }

    /// The log.
    pub fn event_store(&self) -> (r: &PostgresEventStore<ChatEvent>)
        ensures
            *r == self.log(),
    {
        &self.store
    }

    /// The read model.
    pub fn view_repository(&self) -> (r: &ChatRoomViewRepository)
        ensures
            *r == self.read_model(),
    {
        &self.views
    }

    /// Loads room `aggregate_id` from the log.
    pub fn load_aggregate(&self, aggregate_id: u128) -> (r: ChatAggregateContext)
        ensures
            r.id() == aggregate_id,
            r.sequence() == self.log().stream(aggregate_id).len(),
            r.state() == self.room_state(aggregate_id),
            self.loaded_earlier(r),
    {
        let events = self.store.load_events(aggregate_id);
        let r = ChatAggregateContext::new(aggregate_id, &events);
        assert(self.log().stream(aggregate_id).subrange(0, r.sequence() as int) =~= self.log().stream(
            aggregate_id,
        ));
        r
    }

    /// Appends `events` to the room of `context`, provided no other write
    /// reached it since `context` was loaded and no event starts another
    /// room, then folds them into the read model.
    pub fn commit(
        &mut self,
        events: Vec<ChatEvent>,
        context: ChatAggregateContext,
        metadata: Vec<(String, String)>,
    ) -> (r: Result<Vec<EventEnvelope<ChatEvent>>, AggregateError<ChatError>>)
        requires
            old(self).wf(),
        ensures
            final(self).wf(),
            r matches Err(AggregateError::UserError(e)) <==> starts_other_room(
                events@,
                context.id(),
            ),
            r matches Err(AggregateError::UserError(e)) ==> e@ == ChatErrorView::InvalidOperation(
                other_room_message(),
            ),
            r matches Err(AggregateError::AggregateConflict) <==> !starts_other_room(
                events@,
                context.id(),
            ) && context.sequence() != old(self).log().stream(context.id()).len(),
            r matches Err(AggregateError::StorageExhausted) <==> !starts_other_room(
                events@,
                context.id(),
            ) && context.sequence() == old(self).log().stream(context.id()).len() && old(
                self,
            ).log().entries().len() + events@.len() > usize::MAX,
            !(r is Ok) ==> final(self).log().entries() == old(self).log().entries()
                && final(self).read_model().rows() == old(self).read_model().rows(),
            r is Ok ==> {
                let added = numbered(
                    context.id(),
                    context.sequence() as int,
                    events@,
                    metadata@,
                );
                &&& envelope_views(r->Ok_0@) == added
                &&& final(self).log().entries() == old(self).log().entries() + added
                &&& final(self).read_model().rows() == project_events(
                    old(self).read_model().rows(),
                    context.id(),
                    events@,
                )
            },
    {
        let id = context.aggregate_id();
        let expected = context.current_sequence();
        if check_rooms(&events, id) {
            let m = String::from_str("An event starts a room other than the one it is committed to");
            return Err(AggregateError::UserError(ChatError::InvalidOperation(m)));
        }
        let ghost old_log = self.log();
        let ghost old_rows = self.read_model().rows();
        let ghost evs = events@;
        let ghost md = metadata@;
        match self.store.append(id, expected, events, metadata) {
            Ok(committed) => {
                self.views.dispatch(id, &committed);
                proof {
                    let added = numbered(id, expected as int, evs, md);
                    lemma_numbered(id, expected as int, evs, md);
                    assert(payloads(envelope_views(committed@)) == evs);
                    assert forall|x: u128| #[trigger] row_of(self.read_model().rows(), x) == fold_row(
                        None,
                        x,
                        payloads(self.log().stream(x)),
                    ) by {
                        assert forall|i: int| 0 <= i < evs.len() implies !creates_other(
                            #[trigger] evs[i],
                            id,
                        ) by {}
                        lemma_stream_append(old_log.entries(), added, id, x);
                        lemma_project_events(old_rows, id, evs, x);
                        assert(row_of(old_rows, x) == fold_row(None, x, payloads(old_log.stream(x))));
                        if x == id {
                            lemma_payloads_append(old_log.stream(x), added);
                            lemma_fold_row_append(None, x, payloads(old_log.stream(x)), evs);
                        }
                    }
                }
                Ok(committed)
            },
            Err(StoreError::ConcurrencyConflict) => Err(AggregateError::AggregateConflict),
            Err(StoreError::StorageExhausted) => Err(AggregateError::StorageExhausted),
        }
    }

    /// Carries out `command` on room `aggregate_id` at time `now`: the room
    /// decides on its current state; an error commits nothing; events are
    /// appended and folded into the read model; no events change nothing.
    pub fn execute_at(
        &mut self,
        aggregate_id: u128,
        command: ChatCommand,
        now: i64,
        metadata: Vec<(String, String)>,
    ) -> (r: Result<Vec<EventEnvelope<ChatEvent>>, AggregateError<ChatError>>)
        requires
            old(self).wf(),
        ensures
            final(self).wf(),
            !(r matches Err(AggregateError::AggregateConflict)),
            match decide_for(old(self).room_state(aggregate_id), aggregate_id, command, now) {
                Err(f) => r matches Err(AggregateError::UserError(e)) && e@ == f,
                Ok(evs) => {
                    ||| old(self).log().entries().len() + evs.len() > usize::MAX && r matches Err(AggregateError::StorageExhausted)
                    ||| r matches Ok(committed) && envelope_views(committed@) == numbered(
                        aggregate_id,
                        old(self).log().stream(aggregate_id).len() as int,
                        evs,
                        metadata@,
                    )
                },
            },
            !(r is Ok) ==> final(self).log().entries() == old(self).log().entries()
                && final(self).read_model().rows() == old(self).read_model().rows(),
            r matches Ok(committed) ==> final(self).log().entries() == old(self).log().entries()
                + envelope_views(committed@) && final(self).read_model().rows() == project_events(
                old(self).read_model().rows(),
                aggregate_id,
                payloads(envelope_views(committed@)),
            ),
    {
        let context = self.load_aggregate(aggregate_id);
        if let ChatCommand::CreateRoom { room_id, .. } = &command {
            if *room_id != aggregate_id {
                let m = String::from_str("Room ID does not match the entity it is sent to");
                return Err(AggregateError::UserError(ChatError::InvalidOperation(m)));
            }
        }
        let decided = context.aggregate().decide(command, now);
        match decided {
            Err(e) => Err(AggregateError::UserError(e)),
            Ok(events) => {
                let ghost evs = events@;
                let r = self.commit(events, context, metadata);
                proof {
                    if r is Ok {
                        let added = numbered(
                            aggregate_id,
                            context.sequence() as int,
                            evs,
                            metadata@,
                        );
                        assert(payloads(added) =~= evs);
                    }
                }
                r
            },
        }
    }

    /// Carries out `command` on room `aggregate_id` at time `now`, with no
    /// metadata. Under exclusive access no other write can come between
    /// loading and appending, so a conflict never comes out.
    pub fn execute(&mut self, aggregate_id: u128, command: ChatCommand, now: i64) -> (r: Result<
        Vec<EventEnvelope<ChatEvent>>,
        AggregateError<ChatError>,
    >)
        requires
            old(self).wf(),
        ensures
            final(self).wf(),
            !(r matches Err(AggregateError::AggregateConflict)),
            match decide_for(old(self).room_state(aggregate_id), aggregate_id, command, now) {
                Err(f) => r matches Err(AggregateError::UserError(e)) && e@ == f,
                Ok(evs) => {
                    ||| old(self).log().entries().len() + evs.len() > usize::MAX && r matches Err(
                        AggregateError::StorageExhausted,
                    )
                    ||| r matches Ok(committed) && envelope_views(committed@) == numbered(
                        aggregate_id,
                        old(self).log().stream(aggregate_id).len() as int,
                        evs,
                        Seq::empty(),
                    )
                },
            },
            !(r is Ok) ==> final(self).log().entries() == old(self).log().entries()
                && final(self).read_model().rows() == old(self).read_model().rows(),
            r matches Ok(committed) ==> final(self).log().entries() == old(self).log().entries()
                + envelope_views(committed@) && final(self).read_model().rows() == project_events(
                old(self).read_model().rows(),
                aggregate_id,
                payloads(envelope_views(committed@)),
            ),
    {
        let metadata: Vec<(String, String)> = Vec::new();
        self.execute_at(aggregate_id, command, now, metadata)
    }
    /// Carries out `command` as decided at time `now` on `context`, which
    /// may be stale. A refusal on `context` is returned as it is. Where another
    /// write came first, the room is loaded again and decides again, up to
    /// `MAX_ATTEMPTS` times in all; under exclusive access the second attempt
    /// cannot meet a conflict.
    pub fn submit(
        &mut self,
        context: ChatAggregateContext,
        command: ChatCommand,
        now: i64,
    ) -> (r: Result<Vec<EventEnvelope<ChatEvent>>, AggregateError<ChatError>>)
        requires
            old(self).wf(),
            old(self).loaded_earlier(context),
        ensures
            final(self).wf(),
            !(r matches Err(AggregateError::AggregateConflict)),
            decide_for(context.state(), context.id(), command, now) matches Err(f) ==> r matches Err(
                AggregateError::UserError(e),
            ) && e@ == f,
            decide_for(context.state(), context.id(), command, now) is Ok ==> match decide_for(
                old(self).room_state(context.id()),
                context.id(),
                command,
                now,
            ) {
                Err(f) => r matches Err(AggregateError::UserError(e)) && e@ == f,
                Ok(evs) => {
                    ||| old(self).log().entries().len() + evs.len() > usize::MAX && r matches Err(
                        AggregateError::StorageExhausted,
                    )
                    ||| r matches Ok(committed) && envelope_views(committed@) == numbered(
                        context.id(),
                        old(self).log().stream(context.id()).len() as int,
                        evs,
                        Seq::empty(),
                    )
                },
            },
            !(r is Ok) ==> final(self).log().entries() == old(self).log().entries()
                && final(self).read_model().rows() == old(self).read_model().rows(),
            r matches Ok(committed) ==> final(self).log().entries() == old(self).log().entries()
                + envelope_views(committed@) && final(self).read_model().rows() == project_events(
                old(self).read_model().rows(),
                context.id(),
                payloads(envelope_views(committed@)),
            ),
    {
        let id = context.aggregate_id;
        let ghost first_state = context.state();
        let ghost first_sequence = context.sequence();
        let mut current = context;
        let mut attempts: usize = 0;
        loop
            invariant
                self.wf(),
                self.log().entries() == old(self).log().entries(),
                self.read_model().rows() == old(self).read_model().rows(),
                current.id() == id,
                id == context.id(),
                first_state == context.state(),
                first_sequence == context.sequence(),
                attempts == 0 ==> current.sequence() == first_sequence && current.state()
                    == first_state,
                self.loaded_earlier(current),
                attempts > 0 ==> current.sequence() == self.log().stream(id).len(),
                attempts > 0 ==> current.state() == self.room_state(id),
                attempts > 0 ==> decide_for(first_state, id, command, now) is Ok,
                attempts < MAX_ATTEMPTS,
            decreases MAX_ATTEMPTS - attempts,
        {
            proof {
                if current.sequence() == self.log().stream(id).len() {
                    assert(self.log().stream(id).subrange(0, current.sequence() as int)
                        =~= self.log().stream(id));
                }
            }
            if let ChatCommand::CreateRoom { room_id, .. } = &command {
                if *room_id != id {
                    let m = String::from_str("Room ID does not match the entity it is sent to");
                    return Err(AggregateError::UserError(ChatError::InvalidOperation(m)));
                }
            }
            let events = match current.aggregate().decide(command.replicate(), now) {
                Err(e) => {
                    return Err(AggregateError::UserError(e));
                },
                Ok(events) => events,
            };
            let ghost evs = events@;
            let ghost seq = current.sequence();
            let r = self.commit(events, current, Vec::new());
            if !matches!(r, Err(AggregateError::AggregateConflict)) {
                proof {
                    if r is Ok {
                        let added = numbered(id, seq as int, evs, Seq::empty());
                        assert(payloads(added) =~= evs);
                    }
                }
                return r;
            }
            attempts += 1;
            if attempts >= MAX_ATTEMPTS {
                return r;
            }
            current = self.load_aggregate(id);
        }
    }
}

/// An engine with an empty log and an empty read model.
pub fn create_chat_framework() -> (r: ChatRoomFramework)
    ensures
        r.wf(),
        r.log().entries().len() == 0,
        r.read_model().rows().len() == 0,
{
    ChatRoomFramework::new()
}

} // verus!
