//! The in-process event store: the reference implementation of the store
//! contract. Streams are kept as vectors of persisted records, one slot per
//! stream id; snapshots in a vector with one slot per stream id.

use vstd::prelude::*;

use crate::aggregate::{
    events_view, spec_event_occurred_at, spec_event_type, BankAccount, BankAccountEvent,
    BankAccountEventV, BankAccountV,
};
use crate::clock::Timestamp;
use crate::codec::{decode_event, encode_event, lemma_event_codec_round_trip, spec_parse_event};
use crate::eventsourcing::{
    append_streams, can_append, events_since, stream_of, EventStore, EventStoreError,
    EventStoreErrorKind, EventStream, Snapshot, SnapshotV,
};
use vstd::pervasive::unreached;
use vstd::string::StringExecFns;

verus! {

/// One persisted event record: the type tag, the JSON body, when the event
/// occurred, and the (stream id, stream version) primary key.
#[derive(Debug)]
pub struct StoredEvent {
    event_type: String,
    event_body: String,
    event_occurred_at: Timestamp,
    stream_id: String,
    stream_version: u64,
}

/// Mathematical model of a `StoredEvent`.
pub struct StoredEventV {
    pub event_type: Seq<char>,
    pub event_body: Seq<char>,
    pub event_occurred_at: i64,
    pub stream_id: Seq<char>,
    pub stream_version: u64,
}

impl View for StoredEvent {
    type V = StoredEventV;

    closed spec fn view(&self) -> StoredEventV {
        StoredEventV {
            event_type: self.event_type@,
            event_body: self.event_body@,
            event_occurred_at: self.event_occurred_at.millis,
            stream_id: self.stream_id@,
            stream_version: self.stream_version,
        }
    }
}

impl StoredEvent {
    pub fn new(
        event_type: String,
        event_body: String,
        event_occurred_at: Timestamp,
        stream_id: String,
        stream_version: u64,
    ) -> (r: Self)
        ensures
            r@ == (StoredEventV {
                event_type: event_type@,
                event_body: event_body@,
                event_occurred_at: event_occurred_at.millis,
                stream_id: stream_id@,
                stream_version,
            }),
    {
        Self { event_type, event_body, event_occurred_at, stream_id, stream_version }
    }

    pub fn event_type(&self) -> (r: &str)
        ensures
            r@ == self@.event_type,
    {
        self.event_type.as_str()
    }

    pub fn event_body(&self) -> (r: &str)
        ensures
            r@ == self@.event_body,
    {
        self.event_body.as_str()
    }

    pub fn event_occurred_at(&self) -> (r: Timestamp)
        ensures
            r.millis == self@.event_occurred_at,
    {
        self.event_occurred_at
    }

    pub fn stream_id(&self) -> (r: &str)
        ensures
            r@ == self@.stream_id,
    {
        self.stream_id.as_str()
    }

    pub fn stream_version(&self) -> (r: u64)
        ensures
            r == self@.stream_version,
    {
        self.stream_version
    }
}

/// One stream: its id and its records, in version order.
struct StreamSlot {
    stream_id: String,
    events: Vec<StoredEvent>,
}

/// The event the record's body decodes to.
spec fn parsed(se: StoredEvent) -> BankAccountEventV {
    spec_parse_event(se@.event_body)->Some_0
}

/// The events a run of records decodes to.
spec fn stored_events_view(s: Seq<StoredEvent>) -> Seq<BankAccountEventV> {
    s.map_values(|se: StoredEvent| parsed(se))
}

/// A record is internally consistent for position `k` of its stream: its
/// body decodes, its key and derived columns match, and its version is
/// `k + 1`.
spec fn stored_event_ok(se: StoredEvent, stream_id: Seq<char>, k: int) -> bool {
    &&& spec_parse_event(se@.event_body) is Some
    &&& se@.stream_id == stream_id
    &&& se@.stream_version == k + 1
    &&& se@.event_type == spec_event_type(parsed(se))
    &&& se@.event_occurred_at == spec_event_occurred_at(parsed(se))
}

spec fn slot_wf(slot: StreamSlot) -> bool {
    &&& slot.events@.len() <= u64::MAX
    &&& forall|k: int|
        0 <= k < slot.events@.len() ==> stored_event_ok(
            #[trigger] slot.events@[k],
            slot.stream_id@,
            k,
        )
}

spec fn slots_map(slots: Seq<StreamSlot>) -> Map<Seq<char>, Seq<BankAccountEventV>>
    decreases slots.len(),
{
    if slots.len() == 0 {
        Map::empty()
    } else {
        slots_map(slots.drop_last()).insert(
            slots.last().stream_id@,
            stored_events_view(slots.last().events@),
        )
    }
}

spec fn snaps_map(snaps: Seq<Snapshot<BankAccount>>) -> Map<Seq<char>, SnapshotV<BankAccountV>>
    decreases snaps.len(),
{
    if snaps.len() == 0 {
        Map::empty()
    } else {
        snaps_map(snaps.drop_last()).insert(snaps.last()@.stream_id, snaps.last()@)
    }
}

spec fn slots_distinct(slots: Seq<StreamSlot>) -> bool {
    forall|i: int, j: int|
        0 <= i < j < slots.len() ==> (#[trigger] slots[i].stream_id@) != (
        #[trigger] slots[j].stream_id@)
}

spec fn snaps_distinct(snaps: Seq<Snapshot<BankAccount>>) -> bool {
    forall|i: int, j: int|
        0 <= i < j < snaps.len() ==> (#[trigger] snaps[i]@.stream_id) != (
        #[trigger] snaps[j]@.stream_id)
}

proof fn lemma_slots_map_index(slots: Seq<StreamSlot>, i: int)
    requires
        slots_distinct(slots),
        0 <= i < slots.len(),
    ensures
        slots_map(slots).contains_key(slots[i].stream_id@),
        slots_map(slots)[slots[i].stream_id@] == stored_events_view(slots[i].events@),
    decreases slots.len(),
{
    if i == slots.len() - 1 {
        assert(slots.last() == slots[i]);
    } else {
        assert(slots.drop_last()[i] == slots[i]);
        lemma_slots_map_index(slots.drop_last(), i);
        assert(slots[i].stream_id@ != slots.last().stream_id@);
    }
}

proof fn lemma_slots_map_absent(slots: Seq<StreamSlot>, stream_id: Seq<char>)
    requires
        forall|i: int| 0 <= i < slots.len() ==> (#[trigger] slots[i].stream_id@) != stream_id,
    ensures
        !slots_map(slots).contains_key(stream_id),
    decreases slots.len(),
{
    if slots.len() > 0 {
        assert(forall|i: int|
            0 <= i < slots.drop_last().len() ==> (#[trigger] slots.drop_last()[i].stream_id@)
                != stream_id);
        lemma_slots_map_absent(slots.drop_last(), stream_id);
        assert(slots.last() == slots[slots.len() - 1]);
    }
}

proof fn lemma_slots_map_update(slots: Seq<StreamSlot>, i: int, slot2: StreamSlot)
    requires
        slots_distinct(slots),
        0 <= i < slots.len(),
        slot2.stream_id@ == slots[i].stream_id@,
    ensures
        slots_map(slots.update(i, slot2)) == slots_map(slots).insert(
            slot2.stream_id@,
            stored_events_view(slot2.events@),
        ),
    decreases slots.len(),
{
    let up = slots.update(i, slot2);
    if i == slots.len() - 1 {
        assert(up.drop_last() =~= slots.drop_last());
        assert(up.last() == slot2);
    } else {
        assert(up.last() == slots.last());
        assert(up.drop_last() =~= slots.drop_last().update(i, slot2));
        assert(slots.drop_last()[i] == slots[i]);
        lemma_slots_map_update(slots.drop_last(), i, slot2);
        assert(slots[i].stream_id@ != slots.last().stream_id@);
        assert(slots_map(slots.drop_last()).insert(
            slot2.stream_id@,
            stored_events_view(slot2.events@),
        ).insert(slots.last().stream_id@, stored_events_view(slots.last().events@)) =~= slots_map(
            slots.drop_last(),
        ).insert(slots.last().stream_id@, stored_events_view(slots.last().events@)).insert(
            slot2.stream_id@,
            stored_events_view(slot2.events@),
        ));
    }
}

proof fn lemma_snaps_map_index(snaps: Seq<Snapshot<BankAccount>>, i: int)
    requires
        snaps_distinct(snaps),
        0 <= i < snaps.len(),
    ensures
        snaps_map(snaps).contains_key(snaps[i]@.stream_id),
        snaps_map(snaps)[snaps[i]@.stream_id] == snaps[i]@,
    decreases snaps.len(),
{
    if i == snaps.len() - 1 {
        assert(snaps.last() == snaps[i]);
    } else {
        assert(snaps.drop_last()[i] == snaps[i]);
        lemma_snaps_map_index(snaps.drop_last(), i);
        assert(snaps[i]@.stream_id != snaps.last()@.stream_id);
    }
}

proof fn lemma_snaps_map_absent(snaps: Seq<Snapshot<BankAccount>>, stream_id: Seq<char>)
    requires
        forall|i: int| 0 <= i < snaps.len() ==> (#[trigger] snaps[i]@.stream_id) != stream_id,
    ensures
        !snaps_map(snaps).contains_key(stream_id),
    decreases snaps.len(),
{
    if snaps.len() > 0 {
        assert(forall|i: int|
            0 <= i < snaps.drop_last().len() ==> (#[trigger] snaps.drop_last()[i]@.stream_id)
                != stream_id);
        lemma_snaps_map_absent(snaps.drop_last(), stream_id);
        assert(snaps.last() == snaps[snaps.len() - 1]);
    }
}

proof fn lemma_snaps_map_update(snaps: Seq<Snapshot<BankAccount>>, i: int, snap2: Snapshot<
    BankAccount,
>)
    requires
        snaps_distinct(snaps),
        0 <= i < snaps.len(),
        snap2@.stream_id == snaps[i]@.stream_id,
    ensures
        snaps_map(snaps.update(i, snap2)) == snaps_map(snaps).insert(snap2@.stream_id, snap2@),
    decreases snaps.len(),
{
    let up = snaps.update(i, snap2);
    if i == snaps.len() - 1 {
        assert(up.drop_last() =~= snaps.drop_last());
        assert(up.last() == snap2);
    } else {
        assert(up.last() == snaps.last());
        assert(up.drop_last() =~= snaps.drop_last().update(i, snap2));
        assert(snaps.drop_last()[i] == snaps[i]);
        lemma_snaps_map_update(snaps.drop_last(), i, snap2);
        assert(snaps[i]@.stream_id != snaps.last()@.stream_id);
        assert(snaps_map(snaps.drop_last()).insert(snap2@.stream_id, snap2@).insert(
            snaps.last()@.stream_id,
            snaps.last()@,
        ) =~= snaps_map(snaps.drop_last()).insert(snaps.last()@.stream_id, snaps.last()@).insert(
            snap2@.stream_id,
            snap2@,
        ));
    }
}

/// Compares two string slices by their characters.
fn str_eq(a: &str, b: &str) -> (r: bool)
    ensures
        r == (a@ == b@),
{
    let sa = String::from_str(a);
    let sb = String::from_str(b);
    sa == sb
}

/// The in-memory bank-account event store.
pub struct InmemoryBankAccountEventStore {
    slots: Vec<StreamSlot>,
    snapshots: Vec<Snapshot<BankAccount>>,
}

impl InmemoryBankAccountEventStore {
    /// An empty store: no streams, no snapshots.
    pub fn new() -> (r: Self)
        ensures
            r.inv(),
            r.streams() == Map::<Seq<char>, Seq<BankAccountEventV>>::empty(),
            r.snapshots() == Map::<Seq<char>, SnapshotV<BankAccountV>>::empty(),
    {
        Self { slots: Vec::new(), snapshots: Vec::new() }
    }

    fn find_slot(&self, stream_id: &String) -> (r: Option<usize>)
        ensures
            match r {
                Some(i) => i < self.slots@.len() && self.slots@[i as int].stream_id@ == stream_id@,
                None => forall|i: int|
                    0 <= i < self.slots@.len() ==> (#[trigger] self.slots@[i].stream_id@)
                        != stream_id@,
            },
    {
        let mut i: usize = 0;
        while i < self.slots.len()
            invariant
                i <= self.slots@.len(),
                forall|j: int|
                    0 <= j < i ==> (#[trigger] self.slots@[j].stream_id@) != stream_id@,
            decreases self.slots@.len() - i,
        {
            if self.slots[i].stream_id == *stream_id {
                return Some(i);
            }
            i = i + 1;
        }
        None
    }

    fn find_snapshot(&self, stream_id: &String) -> (r: Option<usize>)
        ensures
            match r {
                Some(i) => i < self.snapshots@.len() && self.snapshots@[i as int]@.stream_id
                    == stream_id@,
                None => forall|i: int|
                    0 <= i < self.snapshots@.len() ==> (#[trigger] self.snapshots@[i]@.stream_id)
                        != stream_id@,
            },
    {
        let mut i: usize = 0;
        while i < self.snapshots.len()
            invariant
                i <= self.snapshots@.len(),
                forall|j: int|
                    0 <= j < i ==> (#[trigger] self.snapshots@[j]@.stream_id) != stream_id@,
            decreases self.snapshots@.len() - i,
        {
            if str_eq(self.snapshots[i].stream_id(), stream_id.as_str()) {
                return Some(i);
            }
            i = i + 1;
        }
        None
    }
}

/// Persists each event: its type tag, its JSON body, its own timestamp, and
/// the key (stream id, start version + offset).
fn build_records(stream_id: &String, start_version: u64, events: &Vec<BankAccountEvent>) -> (r:
    Vec<StoredEvent>)
    requires
        1 <= start_version,
        start_version - 1 + events@.len() <= u64::MAX,
    ensures
        r@.len() == events@.len(),
        forall|k: int|
            0 <= k < r@.len() ==> stored_event_ok(
                #[trigger] r@[k],
                stream_id@,
                start_version - 1 + k,
            ),
        stored_events_view(r@) == events_view(events@),
{
    let mut out: Vec<StoredEvent> = Vec::new();
    let mut i: usize = 0;
    while i < events.len()
        invariant
            i <= events@.len(),
            out@.len() == i,
            1 <= start_version,
            start_version - 1 + events@.len() <= u64::MAX,
            forall|k: int|
                0 <= k < i ==> stored_event_ok(#[trigger] out@[k], stream_id@, start_version - 1
                    + k),
            forall|k: int| 0 <= k < i ==> parsed(#[trigger] out@[k]) == events_view(events@)[k],
        decreases events@.len() - i,
    {
        let ev = &events[i];
        let body = encode_event(ev);
        let etype = String::from_str(ev.event_type());
        let ts = ev.occurred_at();
        let ver: u64 = start_version + (i as u64);
        let rec = StoredEvent::new(etype, body, ts, stream_id.clone(), ver);
        proof {
            lemma_event_codec_round_trip(ev@);
            assert(spec_parse_event(rec@.event_body) == Some(ev@));
            assert(events_view(events@)[i as int] == ev@);
        }
        out.push(rec);
        i = i + 1;
    }
    proof {
        assert(stored_events_view(out@) =~= events_view(events@));
    }
    out
}

impl EventStore for InmemoryBankAccountEventStore {
    closed spec fn streams(&self) -> Map<Seq<char>, Seq<BankAccountEventV>> {
        slots_map(self.slots@)
    }

    closed spec fn snapshots(&self) -> Map<Seq<char>, SnapshotV<BankAccountV>> {
        snaps_map(self.snapshots@)
    }

    closed spec fn inv(&self) -> bool {
        &&& slots_distinct(self.slots@)
        &&& forall|i: int| 0 <= i < self.slots@.len() ==> slot_wf(#[trigger] self.slots@[i])
        &&& snaps_distinct(self.snapshots@)
    }

    fn append_event_stream(
        &mut self,
        stream_id: String,
        expected_next_version: u64,
        events: Vec<BankAccountEvent>,
    ) -> (r: Result<(), EventStoreError>) {
        if events.len() == 0 {
            return Err(EventStoreError::new(EventStoreErrorKind::NoEventsError));
        }
        let idx_opt = self.find_slot(&stream_id);
        match idx_opt {
            Option::None => {
                proof {
                    lemma_slots_map_absent(self.slots@, stream_id@);
                }
                if expected_next_version != 1 {
                    return Err(
                        EventStoreError::new(
                            EventStoreErrorKind::AppendEventStreamError(
                                String::from_str("stream version is not the next free one"),
                            ),
                        ),
                    );
                }
                let recs = build_records(&stream_id, 1, &events);
                let ghost old_slots = self.slots@;
                let ghost sid = stream_id@;
                self.slots.push(StreamSlot { stream_id, events: recs });
                proof {
                    assert(self.slots@.drop_last() =~= old_slots);
                    assert(self.slots@.last().stream_id@ == sid);
                    assert(Seq::<BankAccountEventV>::empty() + events_view(events@) =~= events_view(
                        events@,
                    ));
                    assert(slots_map(self.slots@) =~= append_streams(
                        slots_map(old_slots),
                        sid,
                        events_view(events@),
                    ));
                    assert(forall|i: int|
                        0 <= i < old_slots.len() ==> self.slots@[i] == #[trigger] old_slots[i]);
                    assert(slot_wf(self.slots@.last()));
                }
                Ok(())
            },
            Option::Some(i) => {
                proof {
                    lemma_slots_map_index(self.slots@, i as int);
                }
                let len_u: u64 = self.slots[i].events.len() as u64;
                if expected_next_version == 0 {
                    return Err(
                        EventStoreError::new(
                            EventStoreErrorKind::AppendEventStreamError(
                                String::from_str("stream version 0 is not valid"),
                            ),
                        ),
                    );
                }
                if expected_next_version <= len_u {
                    return Err(
                        EventStoreError::new(
                            EventStoreErrorKind::DuplicateEntryError(
                                String::from_str("the stream version already exists"),
                            ),
                        ),
                    );
                }
                if expected_next_version != len_u + 1 {
                    return Err(
                        EventStoreError::new(
                            EventStoreErrorKind::AppendEventStreamError(
                                String::from_str("stream version is not the next free one"),
                            ),
                        ),
                    );
                }
                let n_u: u64 = events.len() as u64;
                if n_u > u64::MAX - len_u {
                    return Err(
                        EventStoreError::new(
                            EventStoreErrorKind::AppendEventStreamError(
                                String::from_str("the version space is exhausted"),
                            ),
                        ),
                    );
                }
                let mut recs = build_records(&stream_id, expected_next_version, &events);
                let ghost old_slots = self.slots@;
                let ghost old_recs = recs@;
                let ghost sid = stream_id@;
                self.slots[i].events.append(&mut recs);
                proof {
                    let slot2 = self.slots@[i as int];
                    assert(self.slots@ =~= old_slots.update(i as int, slot2));
                    assert(slot2.stream_id@ == sid);
                    assert(slot2.events@ == old_slots[i as int].events@ + old_recs);
                    lemma_slots_map_update(old_slots, i as int, slot2);
                    assert(stored_events_view(old_slots[i as int].events@ + old_recs)
                        =~= stored_events_view(old_slots[i as int].events@) + stored_events_view(
                        old_recs,
                    ));
                    assert(slots_map(self.slots@) =~= append_streams(
                        slots_map(old_slots),
                        sid,
                        events_view(events@),
                    ));
                    assert(slot_wf(slot2));
                }
                Ok(())
            },
        }
    }

    fn event_stream_since(&self, stream_id: String, stream_version: u64) -> (r: Result<
        EventStream<BankAccountEvent>,
        EventStoreError,
    >) {
        let idx_opt = self.find_slot(&stream_id);
        let lo: u64 = if stream_version <= 1 {
            1
        } else {
            stream_version
        };
        match idx_opt {
            Option::None => {
                proof {
                    lemma_slots_map_absent(self.slots@, stream_id@);
                }
                Err(
                    EventStoreError::new(
                        EventStoreErrorKind::NoEventStreamError(stream_id, stream_version),
                    ),
                )
            },
            Option::Some(i) => {
                proof {
                    lemma_slots_map_index(self.slots@, i as int);
                }
                let ghost stream = stream_of(self.streams(), stream_id@);
                let len: usize = self.slots[i].events.len();
                let len_u: u64 = len as u64;
                if lo > len_u {
                    return Err(
                        EventStoreError::new(
                            EventStoreErrorKind::NoEventStreamError(stream_id, stream_version),
                        ),
                    );
                }
                let start: usize = (lo - 1) as usize;
                let mut out: Vec<BankAccountEvent> = Vec::new();
                let mut k: usize = start;
                while k < len
                    invariant
                        self.inv(),
                        i < self.slots@.len(),
                        self.slots@[i as int].stream_id@ == stream_id@,
                        stream == stored_events_view(self.slots@[i as int].events@),
                        len == self.slots@[i as int].events@.len(),
                        start <= k <= len,
                        out@.len() == k - start,
                        forall|m: int|
                            0 <= m < out@.len() ==> (#[trigger] out@[m])@ == stream[start + m],
                    decreases len - k,
                {
                    let se = &self.slots[i].events[k];
                    proof {
                        assert(slot_wf(self.slots@[i as int]));
                        assert(stored_event_ok(
                            self.slots@[i as int].events@[k as int],
                            stream_id@,
                            k as int,
                        ));
                    }
                    match decode_event(se.event_body()) {
                        Option::Some(ev) => {
                            proof {
                                assert(ev@ == stream[k as int]);
                            }
                            out.push(ev);
                        },
                        Option::None => {
                            proof {
                                assert(false);
                            }
                            unreached()
                        },
                    }
                    k = k + 1;
                }
                proof {
                    assert(crate::eventsourcing::seq_views(out@) =~= events_since(
                        stream,
                        stream_version,
                    ));
                }
                Ok(EventStream::new(out, len_u))
            },
        }
    }

    fn record_snapshot(&mut self, snapshot: Snapshot<BankAccount>) -> (r: Result<
        (),
        EventStoreError,
    >) {
        let key = String::from_str(snapshot.stream_id());
        let idx_opt = self.find_snapshot(&key);
        match idx_opt {
            Option::Some(i) => {
                let ghost old_snaps = self.snapshots@;
                let _previous = self.snapshots.remove(i);
                self.snapshots.insert(i, snapshot);
                proof {
                    assert(self.snapshots@ =~= old_snaps.update(i as int, self.snapshots@[i as int]));
                    lemma_snaps_map_update(old_snaps, i as int, self.snapshots@[i as int]);
                }
                Ok(())
            },
            Option::None => {
                proof {
                    lemma_snaps_map_absent(self.snapshots@, snapshot@.stream_id);
                }
                let ghost old_snaps = self.snapshots@;
                self.snapshots.push(snapshot);
                proof {
                    assert(self.snapshots@.drop_last() =~= old_snaps);
                    assert(forall|i: int|
                        0 <= i < old_snaps.len() ==> self.snapshots@[i] == #[trigger] old_snaps[i]);
                }
                Ok(())
            },
        }
    }

    fn read_snapshot(&self, stream_id: String) -> (r: Result<
        Option<Snapshot<BankAccount>>,
        EventStoreError,
    >) {
        let idx_opt = self.find_snapshot(&stream_id);
        match idx_opt {
            Option::Some(i) => {
                proof {
                    lemma_snaps_map_index(self.snapshots@, i as int);
                }
                let found = &self.snapshots[i];
                let copy = Snapshot::new(
                    String::from_str(found.stream_id()),
                    found.stream_version(),
                    found.snapshot().clone(),
                    found.created_at(),
                );
                Ok(Some(copy))
            },
            Option::None => {
                proof {
                    lemma_snaps_map_absent(self.snapshots@, stream_id@);
                }
                Ok(None)
            },
        }
    }
}

} // verus!
