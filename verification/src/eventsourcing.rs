//! Event-sourcing carriers: event streams, snapshots, stream identifiers,
//! and the store-side error taxonomy.

use vstd::prelude::*;

use crate::aggregate::{events_view, BankAccount, BankAccountEvent, BankAccountEventV, BankAccountV};
use crate::clock::Timestamp;

verus! {

/// Maps a sequence of values to the sequence of their views.
pub open spec fn seq_views<E: View>(s: Seq<E>) -> Seq<E::V> {
    s.map_values(|e: E| e@)
}

/// Mathematical model of an `EventStream`.
pub struct EventStreamV<EV> {
    pub events: Seq<EV>,
    pub version: u64,
}

/// An ordered run of events plus the stream version of its last event.
#[derive(Debug)]
pub struct EventStream<E> {
    events: Vec<E>,
    version: u64,
}

impl<E: View> View for EventStream<E> {
    type V = EventStreamV<E::V>;

    closed spec fn view(&self) -> EventStreamV<E::V> {
        EventStreamV { events: seq_views(self.events@), version: self.version }
    }
}

impl<E: View> EventStream<E> {
    pub fn new(events: Vec<E>, version: u64) -> (r: Self)
        ensures
            r@ == (EventStreamV { events: seq_views(events@), version }),
    {
        Self { events, version }
    }

    pub fn events(&self) -> (r: &Vec<E>)
        ensures
            seq_views(r@) == self@.events,
    {
        &self.events
    }

    pub fn version(&self) -> (r: u64)
        ensures
            r == self@.version,
    {
        self.version
    }
}

/// Mathematical model of a `Snapshot`.
pub struct SnapshotV<DV> {
    pub stream_id: Seq<char>,
    pub stream_version: u64,
    pub data: DV,
    pub created_at: i64,
}

/// A materialized copy of an aggregate's state at a given stream version.
#[derive(Debug)]
pub struct Snapshot<Data> {
    stream_id: String,
    stream_version: u64,
    snapshot: Data,
    created_at: Timestamp,
}

impl<Data: View> View for Snapshot<Data> {
    type V = SnapshotV<Data::V>;

    closed spec fn view(&self) -> SnapshotV<Data::V> {
        SnapshotV {
            stream_id: self.stream_id@,
            stream_version: self.stream_version,
            data: self.snapshot@,
            created_at: self.created_at.millis,
        }
    }
}

impl<Data: View> Snapshot<Data> {
    pub fn new(stream_id: String, stream_version: u64, snapshot: Data, created_at: Timestamp) -> (r: Self)
        ensures
            r@ == (SnapshotV {
                stream_id: stream_id@,
                stream_version,
                data: snapshot@,
                created_at: created_at.millis,
            }),
    {
        Self { stream_id, stream_version, snapshot, created_at }
    }

    pub fn stream_id(&self) -> (r: &str)
        ensures
            r@ == self@.stream_id,
    {
        self.stream_id.as_str()
    }

    pub fn stream_version(&self) -> (r: u64)
        ensures
            r == self@.stream_version,
    {
        self.stream_version
    }

    pub fn snapshot(&self) -> (r: &Data)
        ensures
            r@ == self@.data,
    {
        &self.snapshot
    }

    pub fn created_at(&self) -> (r: Timestamp)
        ensures
            r.millis == self@.created_at,
    {
        self.created_at
    }
}

/// Names a position in a stream: the stream and a 1-based version within it.
#[derive(Debug)]
pub struct EventStreamId {
    stream_name: String,
    stream_version: u64,
}

/// Mathematical model of an `EventStreamId`.
pub struct EventStreamIdV {
    pub stream_name: Seq<char>,
    pub stream_version: u64,
}

impl View for EventStreamId {
    type V = EventStreamIdV;

    closed spec fn view(&self) -> EventStreamIdV {
        EventStreamIdV { stream_name: self.stream_name@, stream_version: self.stream_version }
    }
}

impl EventStreamId {
    pub fn new(stream_name: String, stream_version: u64) -> (r: Self)
        ensures
            r@ == (EventStreamIdV { stream_name: stream_name@, stream_version }),
    {
        Self { stream_name, stream_version }
    }

    pub fn stream_name(&self) -> (r: &str)
        ensures
            r@ == self@.stream_name,
    {
        self.stream_name.as_str()
    }

    pub fn stream_version(&self) -> (r: u64)
        ensures
            r == self@.stream_version,
    {
        self.stream_version
    }
}

/// Mathematical model of an `EventStoreErrorKind`.
pub enum EventStoreErrorV {
    NoEventsError,
    DuplicateEntryError(Seq<char>),
    AppendEventStreamError(Seq<char>),
    NoEventStreamError(Seq<char>, u64),
    QueryError(Seq<char>),
}

/// What can go wrong at the event store.
#[derive(Debug)]
pub enum EventStoreErrorKind {
    /// An append was asked to persist an empty batch.
    NoEventsError,
    /// A record with the same (stream id, stream version) key already exists.
    DuplicateEntryError(String),
    /// The append could not be performed; the store is unchanged.
    AppendEventStreamError(String),
    /// No events at or after the requested version exist in the stream.
    NoEventStreamError(String, u64),
    /// The backend failed to answer a read.
    QueryError(String),
}

impl View for EventStoreErrorKind {
    type V = EventStoreErrorV;

    open spec fn view(&self) -> EventStoreErrorV {
        match self {
            EventStoreErrorKind::NoEventsError => EventStoreErrorV::NoEventsError,
            EventStoreErrorKind::DuplicateEntryError(s) => EventStoreErrorV::DuplicateEntryError(
                s@,
            ),
            EventStoreErrorKind::AppendEventStreamError(s) => EventStoreErrorV::AppendEventStreamError(
                s@,
            ),
            EventStoreErrorKind::NoEventStreamError(s, v) => EventStoreErrorV::NoEventStreamError(
                s@,
                *v,
            ),
            EventStoreErrorKind::QueryError(s) => EventStoreErrorV::QueryError(s@),
        }
    }
}

/// A store failure, carrying its kind.
#[derive(Debug)]
pub struct EventStoreError {
    kind: EventStoreErrorKind,
}

impl View for EventStoreError {
    type V = EventStoreErrorV;

    closed spec fn view(&self) -> EventStoreErrorV {
        self.kind@
    }
}

impl EventStoreError {
    pub fn new(kind: EventStoreErrorKind) -> (r: Self)
        ensures
            r@ == kind@,
    {
        Self { kind }
    }

    pub fn kind(&self) -> (r: &EventStoreErrorKind)
        ensures
            r@ == self@,
    {
        &self.kind
    }

    /// The error's kind, by value.
    pub fn into_kind(self) -> (r: EventStoreErrorKind)
        ensures
            r@ == self@,
    {
        self.kind
    }
}

// ---------------------------------------------------------------------------
// The event store contract
// ---------------------------------------------------------------------------

/// The committed run of a stream, empty when the stream does not exist yet.
/// A stream's versions are 1-based and contiguous: the event at index `i`
/// has stream version `i + 1`.
pub open spec fn stream_of(
    streams: Map<Seq<char>, Seq<BankAccountEventV>>,
    stream_id: Seq<char>,
) -> Seq<BankAccountEventV> {
    if streams.contains_key(stream_id) {
        streams[stream_id]
    } else {
        Seq::empty()
    }
}

/// Whether an append can commit: a non-empty batch whose first version is
/// exactly the next free one, without exhausting the version space.
pub open spec fn can_append(
    streams: Map<Seq<char>, Seq<BankAccountEventV>>,
    stream_id: Seq<char>,
    expected_next_version: u64,
    n: nat,
) -> bool {
    &&& n > 0
    &&& expected_next_version == stream_of(streams, stream_id).len() + 1
    &&& stream_of(streams, stream_id).len() + n <= u64::MAX
}

/// The streams after an accepted append.
pub open spec fn append_streams(
    streams: Map<Seq<char>, Seq<BankAccountEventV>>,
    stream_id: Seq<char>,
    events: Seq<BankAccountEventV>,
) -> Map<Seq<char>, Seq<BankAccountEventV>> {
    streams.insert(stream_id, stream_of(streams, stream_id) + events)
}

/// The events of a stream at or after a version, in ascending version order.
pub open spec fn events_since(stream: Seq<BankAccountEventV>, from_version: u64) -> Seq<
    BankAccountEventV,
> {
    let lo: int = if from_version <= 1 {
        0
    } else {
        from_version - 1
    };
    if lo <= stream.len() {
        stream.skip(lo)
    } else {
        Seq::empty()
    }
}

/// The durable append-log with per-stream monotonic versions, a snapshot
/// slot per stream, and the optimistic-concurrency rule: a record whose
/// (stream id, stream version) key is already taken refuses the append.
pub trait EventStore {
    /// Committed events per stream, in version order; the event at index
    /// `i` of a stream has stream version `i + 1`.
    spec fn streams(&self) -> Map<Seq<char>, Seq<BankAccountEventV>>;

    /// The single snapshot slot per stream.
    spec fn snapshots(&self) -> Map<Seq<char>, SnapshotV<BankAccountV>>;

    /// The store's internal well-formedness.
    spec fn inv(&self) -> bool;

    /// Persists `events` as consecutive records with versions
    /// `expected_next_version, expected_next_version + 1, ...`. An empty
    /// batch is refused; a batch whose first version is already taken is a
    /// duplicate entry; one that would skip versions or overflow the version
    /// space cannot be appended. A refused append leaves the store unchanged.
    fn append_event_stream(
        &mut self,
        stream_id: String,
        expected_next_version: u64,
        events: Vec<BankAccountEvent>,
    ) -> (r: Result<(), EventStoreError>)
        requires
            old(self).inv(),
        ensures
            final(self).inv(),
            final(self).snapshots() == old(self).snapshots(),
            r is Ok <==> can_append(
                old(self).streams(),
                stream_id@,
                expected_next_version,
                events@.len(),
            ),
            r is Ok ==> final(self).streams() == append_streams(
                old(self).streams(),
                stream_id@,
                events_view(events@),
            ),
            !(r is Ok) ==> final(self).streams() == old(self).streams(),
            r matches Err(e) ==> (if events@.len() == 0 {
                e@ is NoEventsError
            } else if 1 <= expected_next_version && expected_next_version <= stream_of(
                old(self).streams(),
                stream_id@,
            ).len() {
                e@ is DuplicateEntryError
            } else {
                e@ is AppendEventStreamError
            }),
    ;

    /// Returns all events of the stream with version at or after
    /// `stream_version`, ascending, together with the version of the last
    /// event of the stream; when there are none, the stream has no events
    /// since that version.
    fn event_stream_since(&self, stream_id: String, stream_version: u64) -> (r: Result<
        EventStream<BankAccountEvent>,
        EventStoreError,
    >)
        requires
            self.inv(),
        ensures
            r is Ok <==> events_since(stream_of(self.streams(), stream_id@), stream_version).len()
                > 0,
            r matches Ok(es) ==> {
                &&& stream_of(self.streams(), stream_id@).len() <= u64::MAX
                &&& es@.events == events_since(
                    stream_of(self.streams(), stream_id@),
                    stream_version,
                )
                &&& es@.version == stream_of(self.streams(), stream_id@).len()
            },
            r matches Err(e) ==> e@ == EventStoreErrorV::NoEventStreamError(
                stream_id@,
                stream_version,
            ),
    ;

    /// Upserts the single snapshot slot of the snapshot's stream.
    fn record_snapshot(&mut self, snapshot: Snapshot<BankAccount>) -> (r: Result<
        (),
        EventStoreError,
    >)
        requires
            old(self).inv(),
        ensures
            final(self).inv(),
            final(self).streams() == old(self).streams(),
            final(self).snapshots() == old(self).snapshots().insert(
                snapshot@.stream_id,
                snapshot@,
            ),
            r is Ok,
    ;

    /// Reads the stream's snapshot slot.
    fn read_snapshot(&self, stream_id: String) -> (r: Result<
        Option<Snapshot<BankAccount>>,
        EventStoreError,
    >)
        requires
            self.inv(),
        ensures
            r is Ok,
            r matches Ok(opt) ==> {
                &&& (opt is Some <==> self.snapshots().contains_key(stream_id@))
                &&& (opt matches Some(s) ==> s@ == self.snapshots()[stream_id@])
            },
    ;
}

/// Fan-out of committed events to downstream subscribers. Delivery is
/// at-least-once after a successful append; nothing is promised of it here.
pub trait EventPublisher {
    fn publish(&self, event: &BankAccountEvent);
}

/// After an accepted append of events starting at `expected_next_version`,
/// reading the stream since that version returns exactly those events, in
/// order.
pub proof fn lemma_append_then_since(
    streams: Map<Seq<char>, Seq<BankAccountEventV>>,
    stream_id: Seq<char>,
    expected_next_version: u64,
    events: Seq<BankAccountEventV>,
)
    requires
        can_append(streams, stream_id, expected_next_version, events.len()),
    ensures
        events_since(
            stream_of(append_streams(streams, stream_id, events), stream_id),
            expected_next_version,
        ) == events,
{
    let stream = stream_of(streams, stream_id);
    let grown = stream_of(append_streams(streams, stream_id, events), stream_id);
    assert(grown == stream + events);
    assert((stream + events).skip(stream.len() as int) =~= events);
}

/// Optimistic concurrency: two writers that both observed version
/// `expected_next_version - 1` cannot both append there. After one append
/// commits, the store refuses the other at the same version, and the refusal
/// is a duplicate entry by the append contract: the batch is non-empty and
/// its first version is already taken.
pub proof fn lemma_optimistic_concurrency(
    streams: Map<Seq<char>, Seq<BankAccountEventV>>,
    stream_id: Seq<char>,
    expected_next_version: u64,
    events: Seq<BankAccountEventV>,
    n2: nat,
)
    requires
        can_append(streams, stream_id, expected_next_version, events.len()),
        n2 > 0,
    ensures
        !can_append(
            append_streams(streams, stream_id, events),
            stream_id,
            expected_next_version,
            n2,
        ),
        1 <= expected_next_version <= stream_of(
            append_streams(streams, stream_id, events),
            stream_id,
        ).len(),
{
    let grown = stream_of(append_streams(streams, stream_id, events), stream_id);
    assert(grown == stream_of(streams, stream_id) + events);
}


} // verus!
