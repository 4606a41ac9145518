//! The read model: one row per chat room, folded from committed events.
use vstd::prelude::*;

use crate::event_store::{envelope_views, payloads, EventEnvelope};
use crate::events::ChatEvent;
use crate::participants::{
    first_username, remove_user, retain_others, username_or_id, UserInfo,
};

verus! {

/// A message as the read model shows it, with the sender's name.
#[derive(Clone, Debug)]
pub struct MessageView {
    pub id: u128,
    pub user_id: String,
    pub username: String,
    pub content: String,
    pub timestamp: i64,
}

impl MessageView {
    /// An equal copy.
    pub fn replicate(&self) -> (r: MessageView)
        ensures
            r == *self,
    {
        MessageView {
            id: self.id,
            user_id: self.user_id.clone(),
            username: self.username.clone(),
            content: self.content.clone(),
            timestamp: self.timestamp,
        }
    }
}

/// One row of the read model.
#[derive(Clone, Debug)]
pub struct ChatRoomView {
    pub room_id: u128,
    pub name: String,
    pub participants: Vec<UserInfo>,
    pub messages: Vec<MessageView>,
    pub created_at: i64,
}

/// A `ChatRoomView` as values.
pub struct RoomRow {
    pub room_id: u128,
    pub name: String,
    pub participants: Seq<UserInfo>,
    pub messages: Seq<MessageView>,
    pub created_at: i64,
}

impl View for ChatRoomView {
    type V = RoomRow;

    open spec fn view(&self) -> RoomRow {
        RoomRow {
            room_id: self.room_id,
            name: self.name,
            participants: self.participants@,
            messages: self.messages@,
            created_at: self.created_at,
        }
    }
}

pub open spec fn row_views(v: Seq<ChatRoomView>) -> Seq<RoomRow> {
    v.map_values(|r: ChatRoomView| r@)
}

/// Whether `i` is the first row of room `id`.
pub open spec fn is_first_row(rows: Seq<RoomRow>, id: u128, i: int) -> bool {
    &&& 0 <= i < rows.len()
    &&& rows[i].room_id == id
    &&& forall|j: int| 0 <= j < i ==> (#[trigger] rows[j]).room_id != id
}

pub open spec fn has_row(rows: Seq<RoomRow>, id: u128) -> bool {
    exists|i: int| is_first_row(rows, id, i)
}

/// The place of the first row of room `id`; meaningful where `has_row` holds.
pub open spec fn row_index(rows: Seq<RoomRow>, id: u128) -> int {
    choose|i: int| is_first_row(rows, id, i)
}

/// The first row of room `id`, if there is one.
pub open spec fn row_of(rows: Seq<RoomRow>, id: u128) -> Option<RoomRow> {
    if has_row(rows, id) {
        Some(rows[row_index(rows, id)])
    } else {
        None
    }
}

/// The rows with the first row of room `id` replaced by `row`, if there is one.
pub open spec fn change_row(rows: Seq<RoomRow>, id: u128, row: RoomRow) -> Seq<RoomRow> {
    if has_row(rows, id) {
        rows.update(row_index(rows, id), row)
    } else {
        rows
    }
}

/// The name shown for `user_id` in a room with participants `ps`.
pub open spec fn shown_name(ps: Seq<UserInfo>, user_id: String) -> String {
    match first_username(ps, user_id@) {
        Some(n) => n,
        None => user_id,
    }
}

/// The row that a `RoomCreated` event starts.
pub open spec fn created_row(e: ChatEvent) -> RoomRow {
    match e {
        ChatEvent::RoomCreated { room_id, name, created_by, timestamp } => RoomRow {
            room_id,
            name,
            participants: seq![UserInfo { user_id: created_by, username: created_by }],
            messages: Seq::empty(),
            created_at: timestamp,
        },
        _ => arbitrary(),
    }
}

/// A room's row after one of its events other than `RoomCreated`.
pub open spec fn changed_row(row: RoomRow, e: ChatEvent) -> RoomRow {
    match e {
        ChatEvent::RoomCreated { .. } => row,
        ChatEvent::UserJoined { user_id, username, .. } => RoomRow {
            participants: row.participants.push(UserInfo { user_id, username }),
            ..row
        },
        ChatEvent::UserLeft { user_id, .. } => RoomRow {
            participants: remove_user(row.participants, user_id@),
            ..row
        },
        ChatEvent::MessageSent { message_id, user_id, content, timestamp } => {
            let m = MessageView {
                id: message_id,
                user_id,
                username: shown_name(row.participants, user_id),
                content,
                timestamp,
            };
            RoomRow { messages: row.messages.push(m), ..row }
        },
    }
}

/// The rows after one event of room `id`: a `RoomCreated` adds a row; any
/// other event changes the first row of room `id`, if there is one.
pub open spec fn project_event(rows: Seq<RoomRow>, id: u128, e: ChatEvent) -> Seq<RoomRow> {
    match e {
        ChatEvent::RoomCreated { .. } => rows.push(created_row(e)),
        _ => change_row(rows, id, changed_row(rows[row_index(rows, id)], e)),
    }
}

/// The rows after the events of room `id`, in order.
pub open spec fn project_events(rows: Seq<RoomRow>, id: u128, events: Seq<ChatEvent>) -> Seq<
    RoomRow,
>
    decreases events.len(),
{
    if events.len() == 0 {
        rows
    } else {
        project_event(project_events(rows, id, events.drop_last()), id, events.last())
    }
}

/// A room's row after one event of room `id`, from the row before (`None`
/// where the room has none yet).
pub open spec fn step_row(row: Option<RoomRow>, id: u128, e: ChatEvent) -> Option<RoomRow> {
    match e {
        ChatEvent::RoomCreated { room_id, .. } => if row is None && room_id == id {
            Some(created_row(e))
        } else {
            row
        },
        _ => match row {
            Some(r) => Some(changed_row(r, e)),
            None => None,
        },
    }
}

/// A room's row after its events, in order, from the row before.
pub open spec fn fold_row(row: Option<RoomRow>, id: u128, events: Seq<ChatEvent>) -> Option<
    RoomRow,
>
    decreases events.len(),
{
    if events.len() == 0 {
        row
    } else {
        step_row(fold_row(row, id, events.drop_last()), id, events.last())
    }
}

/// Whether `e` starts a room other than `id`.
pub open spec fn creates_other(e: ChatEvent, id: u128) -> bool {
    e matches ChatEvent::RoomCreated { room_id, .. } && room_id != id
}

pub proof fn lemma_first_row(rows: Seq<RoomRow>, id: u128, i: int)
    requires
        is_first_row(rows, id, i),
    ensures
        has_row(rows, id),
        row_index(rows, id) == i,
        row_of(rows, id) == Some(rows[i]),
{
    let k = row_index(rows, id);
    assert(is_first_row(rows, id, k));
    if k < i {
        assert(rows[k].room_id != id);
    }
    if i < k {
        assert(rows[i].room_id != id);
    }
}

pub proof fn lemma_some_row(rows: Seq<RoomRow>, id: u128, j: int)
    requires
        0 <= j < rows.len(),
        rows[j].room_id == id,
    ensures
        has_row(rows, id),
    decreases j,
{
    if forall|k: int| 0 <= k < j ==> (#[trigger] rows[k]).room_id != id {
        assert(is_first_row(rows, id, j));
    } else {
        let k = choose|k: int| 0 <= k < j && (#[trigger] rows[k]).room_id == id;
        lemma_some_row(rows, id, k);
    }
}

/// Rows with the same room ids in the same places have their first rows in the same places.
pub proof fn lemma_same_ids(a: Seq<RoomRow>, b: Seq<RoomRow>, id: u128)
    requires
        a.len() == b.len(),
        forall|j: int| 0 <= j < a.len() ==> (#[trigger] a[j]).room_id == b[j].room_id,
    ensures
        has_row(a, id) == has_row(b, id),
        has_row(a, id) ==> row_index(a, id) == row_index(b, id),
{
    if has_row(a, id) {
        let i = row_index(a, id);
        assert(is_first_row(a, id, i));
        assert forall|j: int| 0 <= j < i implies (#[trigger] b[j]).room_id != id by {
            assert(a[j].room_id != id);
        }
        assert(is_first_row(b, id, i));
        lemma_first_row(b, id, i);
    } else if has_row(b, id) {
        let i = row_index(b, id);
        assert(is_first_row(b, id, i));
        assert(a[i].room_id == id);
        lemma_some_row(a, id, i);
    }
}

/// One event of room `x` moves the row of `x` one step and leaves the row of
/// every other room as it was, unless it starts another room.
pub proof fn lemma_project_event(rows: Seq<RoomRow>, x: u128, e: ChatEvent, id: u128)
    requires
        !creates_other(e, x),
    ensures
        row_of(project_event(rows, x, e), id) == (if id == x {
            step_row(row_of(rows, x), x, e)
        } else {
            row_of(rows, id)
        }),
{
    let after = project_event(rows, x, e);
    match e {
        ChatEvent::RoomCreated { .. } => {
            let r = created_row(e);
            assert(after == rows.push(r));
            if has_row(rows, id) {
                let k = row_index(rows, id);
                assert(is_first_row(rows, id, k));
                assert(is_first_row(after, id, k));
                lemma_first_row(after, id, k);
            } else if id == x {
                assert forall|j: int| 0 <= j < rows.len() implies (#[trigger] after[j]).room_id
                    != id by {
                    assert(after[j] == rows[j]);
                    if rows[j].room_id == id {
                        lemma_some_row(rows, id, j);
                    }
                }
                assert(is_first_row(after, id, rows.len() as int));
                lemma_first_row(after, id, rows.len() as int);
            } else {
                if has_row(after, id) {
                    let i = row_index(after, id);
                    assert(is_first_row(after, id, i));
                    assert(i < rows.len());
                    assert(rows[i] == after[i]);
                    lemma_some_row(rows, id, i);
                }
            }
        },
        _ => {
            if has_row(rows, x) {
                let k = row_index(rows, x);
                assert(is_first_row(rows, x, k));
                let changed = changed_row(rows[k], e);
                assert(after == rows.update(k, changed));
                assert forall|j: int| 0 <= j < rows.len() implies (#[trigger] after[j]).room_id
                    == rows[j].room_id by {}
                lemma_same_ids(after, rows, id);
                if has_row(rows, id) {
                    let i = row_index(rows, id);
                    assert(is_first_row(rows, id, i));
                    assert(is_first_row(after, id, i));
                    lemma_first_row(after, id, i);
                    if id == x {
                        lemma_first_row(rows, x, i);
                    }
                }
            } else {
                assert(after == rows);
            }
        },
    }
}

/// Events of room `x`, none of which starts another room, fold the row of `x`
/// and leave every other row as it was.
pub proof fn lemma_project_events(rows: Seq<RoomRow>, x: u128, events: Seq<ChatEvent>, id: u128)
    requires
        forall|i: int| 0 <= i < events.len() ==> !creates_other(#[trigger] events[i], x),
    ensures
        row_of(project_events(rows, x, events), id) == (if id == x {
            fold_row(row_of(rows, x), x, events)
        } else {
            row_of(rows, id)
        }),
    decreases events.len(),
{
    if events.len() > 0 {
        let init = events.drop_last();
        assert forall|i: int| 0 <= i < init.len() implies !creates_other(#[trigger] init[i], x) by {
            assert(init[i] == events[i]);
        }
        lemma_project_events(rows, x, init, id);
        lemma_project_events(rows, x, init, x);
        assert(!creates_other(events[events.len() - 1], x));
        lemma_project_event(project_events(rows, x, init), x, events.last(), id);
    }
}

/// Folding two runs of events one after the other is folding them joined.
pub proof fn lemma_fold_row_append(
    row: Option<RoomRow>,
    id: u128,
    a: Seq<ChatEvent>,
    b: Seq<ChatEvent>,
)
    ensures
        fold_row(row, id, a + b) == fold_row(fold_row(row, id, a), id, b),
    decreases b.len(),
{
    if b.len() == 0 {
        assert(a + b =~= a);
    } else {
        assert((a + b).drop_last() =~= a + b.drop_last());
        lemma_fold_row_append(row, id, a, b.drop_last());
    }
}

fn copy_users(v: &Vec<UserInfo>) -> (r: Vec<UserInfo>)
    ensures
        r@ == v@,
{
    let mut r: Vec<UserInfo> = Vec::new();
    let mut i: usize = 0;
    while i < v.len()
        invariant
            i <= v@.len(),
            r@ == v@.subrange(0, i as int),
        decreases v@.len() - i,
    {
        r.push(v[i].replicate());
        i += 1;
        assert(r@ =~= v@.subrange(0, i as int));
    }
    assert(v@.subrange(0, v@.len() as int) =~= v@);
    r
}

fn copy_messages(v: &Vec<MessageView>) -> (r: Vec<MessageView>)
    ensures
        r@ == v@,
{
    let mut r: Vec<MessageView> = Vec::new();
    let mut i: usize = 0;
    while i < v.len()
        invariant
            i <= v@.len(),
            r@ == v@.subrange(0, i as int),
        decreases v@.len() - i,
    {
        r.push(v[i].replicate());
        i += 1;
        assert(r@ =~= v@.subrange(0, i as int));
    }
    assert(v@.subrange(0, v@.len() as int) =~= v@);
    r
}

impl ChatRoomView {
    /// An equal copy.
    pub fn replicate(&self) -> (r: ChatRoomView)
        ensures
            r@ == self@,
    {
        ChatRoomView {
            room_id: self.room_id,
            name: self.name.clone(),
            participants: copy_users(&self.participants),
            messages: copy_messages(&self.messages),
            created_at: self.created_at,
        }
    }
}

/// The read model of every chat room.
pub struct ChatRoomViewRepository {
    views: Vec<ChatRoomView>,
}

impl ChatRoomViewRepository {
    /// The rows, in order of creation.
    pub closed spec fn rows(&self) -> Seq<RoomRow> {
        row_views(self.views@)
    }

    /// An empty read model.
    pub fn new() -> (r: Self)
        ensures
            r.rows() == Seq::<RoomRow>::empty(),
    {
        let r = ChatRoomViewRepository { views: Vec::new() };
        assert(r.rows() =~= Seq::<RoomRow>::empty());
        r
    }

    /// The place of the first row of room `id`, if there is one.
    fn find(&self, id: u128) -> (r: Option<usize>)
        ensures
            match r {
                Some(i) => is_first_row(self.rows(), id, i as int) && row_index(self.rows(), id)
                    == i,
                None => !has_row(self.rows(), id),
            },
    {
        let mut i: usize = 0;
        while i < self.views.len()
            invariant
                i <= self.views@.len(),
                self.rows() == row_views(self.views@),
                forall|j: int| 0 <= j < i ==> (#[trigger] self.rows()[j]).room_id != id,
            decreases self.views@.len() - i,
        {
            if self.views[i].room_id == id {
                proof {
                    let k = row_index(self.rows(), id);
                    assert(is_first_row(self.rows(), id, i as int));
                    assert(is_first_row(self.rows(), id, k));
                    if k < i {
                        assert(self.rows()[k].room_id != id);
                    }
                    if i < k {
                        assert(self.rows()[i as int].room_id != id);
                    }
                }
                return Some(i);
            }
            i += 1;
        }
        None
    }

    /// The row of room `room_id`, if there is one.
    pub fn get_room(&self, room_id: u128) -> (r: Option<ChatRoomView>)
        ensures
            match r {
                Some(v) => row_of(self.rows(), room_id) == Some(v@),
                None => row_of(self.rows(), room_id) is None,
            },
    {
        match self.find(room_id) {
            Some(i) => Some(self.views[i].replicate()),
            None => None,
        }
    }

    /// Every row, in order of creation.
    pub fn get_all_rooms(&self) -> (r: Vec<ChatRoomView>)
        ensures
            row_views(r@) == self.rows(),
    {
        let mut r: Vec<ChatRoomView> = Vec::new();
        let mut i: usize = 0;
        while i < self.views.len()
            invariant
                i <= self.views@.len(),
                self.rows() == row_views(self.views@),
                row_views(r@) == self.rows().subrange(0, i as int),
            decreases self.views@.len() - i,
        {
            let ghost before = r@;
            let copy = self.views[i].replicate();
            r.push(copy);
            assert(row_views(r@) =~= row_views(before).push(self.views@[i as int]@));
            i += 1;
            assert(row_views(r@) =~= self.rows().subrange(0, i as int));
        }
        assert(self.rows().subrange(0, self.views@.len() as int) =~= self.rows());
        r
    }

    /// Folds one event of room `aggregate_id` into the rows.
    fn update_row(&mut self, aggregate_id: u128, event: &ChatEvent)
        ensures
            final(self).rows() == project_event(old(self).rows(), aggregate_id, *event),
    {
        let ghost rows0 = self.rows();
        match event {
            ChatEvent::RoomCreated { room_id, name, created_by, timestamp } => {
                let mut participants: Vec<UserInfo> = Vec::new();
                participants.push(UserInfo { user_id: created_by.clone(), username: created_by.clone() });
                let view = ChatRoomView {
                    room_id: *room_id,
                    name: name.clone(),
                    participants,
                    messages: Vec::new(),
                    created_at: *timestamp,
                };
                assert(view@.participants =~= seq![UserInfo { user_id: *created_by, username: *created_by }]);
                assert(view@.messages =~= Seq::<MessageView>::empty());
                self.views.push(view);
                assert(self.rows() =~= rows0.push(view@));
            },
            ChatEvent::UserJoined { user_id, username, .. } => {
                if let Some(i) = self.find(aggregate_id) {
                    let ghost row = rows0[i as int];
                    self.views[i].participants.push(
                        UserInfo { user_id: user_id.clone(), username: username.clone() },
                    );
                    assert(self.rows() =~= rows0.update(
                        i as int,
                        RoomRow {
                            participants: row.participants.push(
                                UserInfo { user_id: *user_id, username: *username },
                            ),
                            ..row
                        },
                    ));
                }
            },
            ChatEvent::UserLeft { user_id, .. } => {
                if let Some(i) = self.find(aggregate_id) {
                    let ghost row = rows0[i as int];
                    retain_others(&mut self.views[i].participants, user_id);
                    assert(self.rows() =~= rows0.update(
                        i as int,
                        RoomRow { participants: remove_user(row.participants, user_id@), ..row },
                    ));
                }
            },
            ChatEvent::MessageSent { message_id, user_id, content, timestamp } => {
                if let Some(i) = self.find(aggregate_id) {
                    let ghost row = rows0[i as int];
                    let username = username_or_id(&self.views[i].participants, user_id);
                    let m = MessageView {
                        id: *message_id,
                        user_id: user_id.clone(),
                        username,
                        content: content.clone(),
                        timestamp: *timestamp,
                    };
                    self.views[i].messages.push(m);
                    assert(self.rows() =~= rows0.update(
                        i as int,
                        RoomRow { messages: row.messages.push(m), ..row },
                    ));
                }
            },
        }
    }

    /// Folds the committed events of room `aggregate_id` into the rows, in order.
    pub fn dispatch(&mut self, aggregate_id: u128, events: &Vec<EventEnvelope<ChatEvent>>)
        ensures
            final(self).rows() == project_events(
                old(self).rows(),
                aggregate_id,
                payloads(envelope_views(events@)),
            ),
    {
        self.update_view(aggregate_id, events);
    }

    fn update_view(&mut self, aggregate_id: u128, events: &Vec<EventEnvelope<ChatEvent>>)
        ensures
            final(self).rows() == project_events(
                old(self).rows(),
                aggregate_id,
                payloads(envelope_views(events@)),
            ),
    {
        let ghost rows0 = self.rows();
        let ghost evs = payloads(envelope_views(events@));
        let mut i: usize = 0;
        assert(evs.subrange(0, 0) =~= Seq::<ChatEvent>::empty());
        while i < events.len()
            invariant
                i <= events@.len(),
                evs == payloads(envelope_views(events@)),
                evs.len() == events@.len(),
                self.rows() == project_events(rows0, aggregate_id, evs.subrange(0, i as int)),
            decreases events@.len() - i,
        {
            assert(evs.subrange(0, i + 1).drop_last() =~= evs.subrange(0, i as int));
            assert(evs[i as int] == events@[i as int].payload);
            self.update_row(aggregate_id, &events[i].payload);
            i += 1;
        }
        assert(evs.subrange(0, events@.len() as int) =~= evs);
    }
}

} // verus!
