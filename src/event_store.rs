//! An append-only event log with per-entity sequence numbers and optimistic
//! concurrency control, held in memory.
use vstd::prelude::*;

verus! {

/// Payloads that the log can hand out copies of.
pub trait Replicate: Sized {
    /// An equal copy.
    fn replicate(&self) -> (r: Self)
        ensures
            r == *self,
    ;
}

/// A committed event: its entity, its 1-based place in the entity's stream,
/// the payload, and key/value metadata.
#[derive(Clone, Debug)]
pub struct EventEnvelope<E> {
    pub aggregate_id: u128,
    pub sequence: usize,
    pub payload: E,
    pub metadata: Vec<(String, String)>,
}

/// An `EventEnvelope` as values.
pub struct EnvelopeView<E> {
    pub aggregate_id: u128,
    pub sequence: int,
    pub payload: E,
    pub metadata: Seq<(String, String)>,
}

impl<E> View for EventEnvelope<E> {
    type V = EnvelopeView<E>;

    open spec fn view(&self) -> EnvelopeView<E> {
        EnvelopeView {
            aggregate_id: self.aggregate_id,
            sequence: self.sequence as int,
            payload: self.payload,
            metadata: self.metadata@,
        }
    }
}

pub open spec fn envelope_views<E>(v: Seq<EventEnvelope<E>>) -> Seq<EnvelopeView<E>> {
    v.map_values(|e: EventEnvelope<E>| e@)
}

/// The entries of `log` that belong to entity `id`, in log order.
pub open spec fn stream_of<E>(log: Seq<EnvelopeView<E>>, id: u128) -> Seq<EnvelopeView<E>>
    decreases log.len(),
{
    if log.len() == 0 {
        log
    } else {
        let rest = stream_of(log.drop_last(), id);
        if log.last().aggregate_id == id {
            rest.push(log.last())
        } else {
            rest
        }
    }
}

/// The payloads of a stream, in order.
pub open spec fn payloads<E>(s: Seq<EnvelopeView<E>>) -> Seq<E> {
    s.map_values(|e: EnvelopeView<E>| e.payload)
}

/// The envelopes that appending `events` to a stream of length `len` creates.
pub open spec fn numbered<E>(
    id: u128,
    len: int,
    events: Seq<E>,
    metadata: Seq<(String, String)>,
) -> Seq<EnvelopeView<E>> {
    Seq::new(
        events.len(),
        |i: int|
            EnvelopeView { aggregate_id: id, sequence: len + i + 1, payload: events[i], metadata },
    )
}

/// Whether every stream of `log` is numbered 1, 2, 3, ... and holds only its own entity.
pub open spec fn numbered_streams<E>(log: Seq<EnvelopeView<E>>) -> bool {
    forall|id: u128, i: int|
        0 <= i < stream_of(log, id).len() ==> (#[trigger] stream_of(log, id)[i]).sequence == i + 1
            && stream_of(log, id)[i].aggregate_id == id
}

pub proof fn lemma_stream_push<E>(log: Seq<EnvelopeView<E>>, x: EnvelopeView<E>, id: u128)
    ensures
        stream_of(log.push(x), id) == (if x.aggregate_id == id {
            stream_of(log, id).push(x)
        } else {
            stream_of(log, id)
        }),
{
    assert(log.push(x).drop_last() =~= log);
}

pub proof fn lemma_stream_len<E>(log: Seq<EnvelopeView<E>>, id: u128)
    ensures
        stream_of(log, id).len() <= log.len(),
    decreases log.len(),
{
    if log.len() > 0 {
        lemma_stream_len(log.drop_last(), id);
    }
}

/// Appending entries of entity `x` to a log extends the stream of `x` by them
/// and leaves every other stream as it was.
pub proof fn lemma_stream_append<E>(
    log: Seq<EnvelopeView<E>>,
    added: Seq<EnvelopeView<E>>,
    x: u128,
    id: u128,
)
    requires
        forall|i: int| 0 <= i < added.len() ==> (#[trigger] added[i]).aggregate_id == x,
    ensures
        stream_of(log + added, id) == (if id == x {
            stream_of(log, id) + added
        } else {
            stream_of(log, id)
        }),
    decreases added.len(),
{
    if added.len() == 0 {
        assert(log + added =~= log);
        assert(stream_of(log, id) + added =~= stream_of(log, id));
    } else {
        let init = added.drop_last();
        assert((log + added).drop_last() =~= log + init);
        assert forall|i: int| 0 <= i < init.len() implies (#[trigger] init[i]).aggregate_id == x by {
            assert(init[i] == added[i]);
        }
        lemma_stream_append(log, init, x, id);
        assert(added.last().aggregate_id == x);
        if id == x {
            assert((stream_of(log, id) + init).push(added.last()) =~= stream_of(log, id) + added);
        }
    }
}

/// The payloads of two runs joined are their payloads joined.
pub proof fn lemma_payloads_append<E>(a: Seq<EnvelopeView<E>>, b: Seq<EnvelopeView<E>>)
    ensures
        payloads(a + b) == payloads(a) + payloads(b),
{
    assert(payloads(a + b) =~= payloads(a) + payloads(b));
}

/// Numbered envelopes carry the events they were made from, in order.
pub proof fn lemma_numbered<E>(id: u128, len: int, events: Seq<E>, metadata: Seq<(String, String)>)
    ensures
        payloads(numbered(id, len, events, metadata)) == events,
        forall|i: int|
            0 <= i < events.len() ==> (#[trigger] numbered(id, len, events, metadata)[i]).aggregate_id
                == id,
{
    assert(payloads(numbered(id, len, events, metadata)) =~= events);
}

/// Why an append was refused.
#[derive(Clone, Debug)]
pub enum StoreError {
    /// The stream is no longer at the expected sequence number.
    ConcurrencyConflict,
    /// The log cannot number more events.
    StorageExhausted,
}

fn copy_metadata(m: &Vec<(String, String)>) -> (r: Vec<(String, String)>)
    ensures
        r@ == m@,
{
    let mut r: Vec<(String, String)> = Vec::new();
    let mut i: usize = 0;
    while i < m.len()
        invariant
            i <= m@.len(),
            r@ == m@.subrange(0, i as int),
        decreases m@.len() - i,
    {
        r.push((m[i].0.clone(), m[i].1.clone()));
        i += 1;
        assert(r@ =~= m@.subrange(0, i as int));
    }
    assert(m@.subrange(0, m@.len() as int) =~= m@);
    r
}

impl<E: Replicate> EventEnvelope<E> {
    /// An equal copy.
    pub fn replicate(&self) -> (r: EventEnvelope<E>)
        ensures
            r@ == self@,
    {
        EventEnvelope {
            aggregate_id: self.aggregate_id,
            sequence: self.sequence,
            payload: self.payload.replicate(),
            metadata: copy_metadata(&self.metadata),
        }
    }
}

/// The log of every committed event, in commit order.
pub struct PostgresEventStore<E> {
    log: Vec<EventEnvelope<E>>,
}

impl<E: Replicate> PostgresEventStore<E> {
    /// Every committed event, in commit order.
    pub closed spec fn entries(&self) -> Seq<EnvelopeView<E>> {
        envelope_views(self.log@)
    }

    /// The committed events of entity `id`, in order.
    pub open spec fn stream(&self, id: u128) -> Seq<EnvelopeView<E>> {
        stream_of(self.entries(), id)
    }

    pub open spec fn wf(&self) -> bool {
        &&& numbered_streams(self.entries())
        &&& self.entries().len() <= usize::MAX
    }

    /// An empty log.
    pub fn new() -> (r: Self)
        ensures
            r.wf(),
            r.entries() == Seq::<EnvelopeView<E>>::empty(),
    {
        let r = PostgresEventStore { log: Vec::new() };
        assert(r.entries() =~= Seq::<EnvelopeView<E>>::empty());
        r
    }

    /// The committed events of entity `aggregate_id`, in order; empty for an unknown id.
    pub fn load_events(&self, aggregate_id: u128) -> (r: Vec<EventEnvelope<E>>)
        ensures
            envelope_views(r@) == self.stream(aggregate_id),
    {
        let mut r: Vec<EventEnvelope<E>> = Vec::new();
        let mut i: usize = 0;
        assert(envelope_views(r@) =~= stream_of(self.entries().subrange(0, 0), aggregate_id));
        while i < self.log.len()
            invariant
                i <= self.log@.len(),
                self.entries().len() == self.log@.len(),
                self.entries() == envelope_views(self.log@),
                envelope_views(r@) == stream_of(self.entries().subrange(0, i as int), aggregate_id),
            decreases self.log@.len() - i,
        {
            let ghost before = r@;
            assert(self.entries().subrange(0, i + 1).drop_last() =~= self.entries().subrange(
                0,
                i as int,
            ));
            if self.log[i].aggregate_id == aggregate_id {
                r.push(self.log[i].replicate());
                assert(envelope_views(r@) =~= envelope_views(before).push(self.log@[i as int]@));
            }
            i += 1;
        }
        assert(self.entries().subrange(0, self.log@.len() as int) =~= self.entries());
        r
    }

    /// The number of committed events of entity `aggregate_id`.
    pub fn current_sequence(&self, aggregate_id: u128) -> (r: usize)
        ensures
            r == self.stream(aggregate_id).len(),
    {
        let mut n: usize = 0;
        let mut i: usize = 0;
        assert(stream_of(self.entries().subrange(0, 0), aggregate_id).len() == 0);
        while i < self.log.len()
            invariant
                i <= self.log@.len(),
                self.entries() == envelope_views(self.log@),
                n == stream_of(self.entries().subrange(0, i as int), aggregate_id).len(),
            decreases self.log@.len() - i,
        {
            assert(self.entries().subrange(0, i + 1).drop_last() =~= self.entries().subrange(
                0,
                i as int,
            ));
            proof {
                lemma_stream_len(self.entries().subrange(0, i as int), aggregate_id);
            }
            if self.log[i].aggregate_id == aggregate_id {
                n += 1;
            }
            i += 1;
        }
        assert(self.entries().subrange(0, self.log@.len() as int) =~= self.entries());
        n
    }

    /// Appends `events` to the stream of `aggregate_id`, all of them or none,
    /// provided that the stream still holds `expected_sequence` events.
    pub fn append(
        &mut self,
        aggregate_id: u128,
        expected_sequence: usize,
        events: Vec<E>,
        metadata: Vec<(String, String)>,
    ) -> (r: Result<Vec<EventEnvelope<E>>, StoreError>)
        requires
            old(self).wf(),
        ensures
            final(self).wf(),
            r matches Err(StoreError::ConcurrencyConflict) <==> expected_sequence != old(
                self,
            ).stream(aggregate_id).len(),
            r matches Err(StoreError::StorageExhausted) <==> expected_sequence == old(
                self,
            ).stream(aggregate_id).len() && old(self).entries().len() + events@.len() > usize::MAX,
            r is Err ==> final(self).entries() == old(self).entries(),
            r is Ok ==> {
                let added = numbered(
                    aggregate_id,
                    expected_sequence as int,
                    events@,
                    metadata@,
                );
                &&& envelope_views(r->Ok_0@) == added
                &&& final(self).entries() == old(self).entries() + added
            },
    {
        let current = self.current_sequence(aggregate_id);
        if expected_sequence != current {
            return Err(StoreError::ConcurrencyConflict);
        }
        if events.len() > usize::MAX - self.log.len() {
            return Err(StoreError::StorageExhausted);
        }
        proof {
            lemma_stream_len(self.entries(), aggregate_id);
        }
        let ghost old_entries = self.entries();
        let mut committed: Vec<EventEnvelope<E>> = Vec::new();
        let mut i: usize = 0;
        while i < events.len()
            invariant
                i <= events@.len(),
                current == stream_of(old_entries, aggregate_id).len(),
                current <= old_entries.len(),
                old_entries.len() + events@.len() <= usize::MAX,
                self.wf(),
                envelope_views(committed@) == numbered(
                    aggregate_id,
                    current as int,
                    events@,
                    metadata@,
                ).subrange(0, i as int),
                self.entries() == old_entries + envelope_views(committed@),
                stream_of(self.entries(), aggregate_id).len() == current + i,
            decreases events@.len() - i,
        {
            let envelope = EventEnvelope {
                aggregate_id,
                sequence: current + i + 1,
                payload: events[i].replicate(),
                metadata: copy_metadata(&metadata),
            };
            let ghost before = self.entries();
            let ghost done = committed@;
            proof {
                assert forall|id: u128| #[trigger]
                    stream_of(before.push(envelope@), id) == (if envelope@.aggregate_id == id {
                        stream_of(before, id).push(envelope@)
                    } else {
                        stream_of(before, id)
                    }) by {
                    lemma_stream_push(before, envelope@, id);
                }
            }
            self.log.push(envelope.replicate());
            committed.push(envelope);
            assert(self.entries() =~= before.push(envelope@));
            assert(envelope_views(committed@) =~= envelope_views(done).push(envelope@));
            assert(numbered_streams(self.entries())) by {
                assert forall|id: u128, j: int|
                    0 <= j < stream_of(self.entries(), id).len() implies (#[trigger] stream_of(
                    self.entries(),
                    id,
                )[j]).sequence == j + 1 && stream_of(self.entries(), id)[j].aggregate_id == id by {
                    assert(stream_of(self.entries(), id) == (if envelope@.aggregate_id == id {
                        stream_of(before, id).push(envelope@)
                    } else {
                        stream_of(before, id)
                    }));
                    if id == aggregate_id && j < stream_of(before, id).len() {
                        assert(stream_of(before, id)[j].sequence == j + 1);
                    }
                }
            }
            i += 1;
            assert(envelope_views(committed@) =~= numbered(
                aggregate_id,
                current as int,
                events@,
                metadata@,
            ).subrange(0, i as int));
            assert(self.entries() =~= old_entries + envelope_views(committed@));
        }
        assert(numbered(aggregate_id, current as int, events@, metadata@).subrange(
            0,
            events@.len() as int,
        ) =~= numbered(aggregate_id, current as int, events@, metadata@));
        Ok(committed)
    }
}

} // verus!
