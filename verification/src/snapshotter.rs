//! The snapshotter: replays a whole stream and records the resulting state
//! in the stream's snapshot slot. It deliberately rebuilds from the full
//! stream; determinism of the fold makes that equal to any incremental
//! strategy.

use vstd::prelude::*;

use crate::aggregate::{
    clone_events, lemma_fold_nonempty_has_state, spec_fold_events, spec_new_aggregate,
    spec_stream_id, BankAccountAggregate, BankAccountEventV, BankAccountId, BankAccountV,
};
use crate::clock::now_timestamp;
use crate::eventsourcing::{
    events_since, stream_of, EventStore, EventStoreErrorKind, EventStoreErrorV, Snapshot,
    SnapshotV,
};
use vstd::pervasive::unreached;

verus! {

/// Mathematical model of a snapshotter error.
pub enum ErrorV {
    EventStoreError(EventStoreErrorV),
    BankAccountError(crate::aggregate::ErrorV),
}

/// What can stop a snapshot from being taken.
#[derive(Debug)]
pub enum ErrorKind {
    /// The store refused a read or the snapshot write.
    EventStoreError(EventStoreErrorKind),
    /// The stream does not replay into a lawful account state.
    BankAccountError(crate::aggregate::ErrorKind),
}

impl View for ErrorKind {
    type V = ErrorV;

    open spec fn view(&self) -> ErrorV {
        match self {
            ErrorKind::EventStoreError(k) => ErrorV::EventStoreError(k@),
            ErrorKind::BankAccountError(k) => ErrorV::BankAccountError(k@),
        }
    }
}

/// A snapshotter failure, carrying its kind.
#[derive(Debug)]
pub struct Error {
    kind: ErrorKind,
}

impl View for Error {
    type V = ErrorV;

    closed spec fn view(&self) -> ErrorV {
        self.kind@
    }
}

impl Error {
    pub fn new(kind: ErrorKind) -> (r: Self)
        ensures
            r@ == kind@,
    {
        Self { kind }
    }

    pub fn kind(&self) -> (r: &ErrorKind)
        ensures
            r@ == self@,
    {
        &self.kind
    }
}

/// What taking a snapshot of a stream yields at time `at`: the fold of the
/// whole stream at the stream's last version, or the reason none can be
/// taken. An empty stream has no snapshot; a stream that does not replay
/// propagates its domain error.
pub open spec fn spec_take_snapshot(
    stream: Seq<BankAccountEventV>,
    stream_id: Seq<char>,
    at: i64,
) -> Result<SnapshotV<BankAccountV>, ErrorV> {
    if stream.len() == 0 {
        Err(ErrorV::EventStoreError(EventStoreErrorV::NoEventStreamError(stream_id, 1)))
    } else {
        match spec_fold_events(spec_new_aggregate(), stream) {
            Err(de) => Err(ErrorV::BankAccountError(de)),
            Ok(a) => match a.state {
                Option::Some(ba) => Ok(
                    SnapshotV {
                        stream_id,
                        stream_version: stream.len() as u64,
                        data: ba,
                        created_at: at,
                    },
                ),
                Option::None => Err(
                    ErrorV::BankAccountError(crate::aggregate::ErrorV::NotYetOpened),
                ),
            },
        }
    }
}

/// Snapshot idempotence: two snapshots of the same stream agree on stream
/// version and data; only their creation times may differ.
pub proof fn lemma_snapshot_idempotent(
    stream: Seq<BankAccountEventV>,
    stream_id: Seq<char>,
    t1: i64,
    t2: i64,
)
    requires
        spec_take_snapshot(stream, stream_id, t1) is Ok,
    ensures
        spec_take_snapshot(stream, stream_id, t2) is Ok,
        spec_take_snapshot(stream, stream_id, t1)->Ok_0.stream_version == spec_take_snapshot(
            stream,
            stream_id,
            t2,
        )->Ok_0.stream_version,
        spec_take_snapshot(stream, stream_id, t1)->Ok_0.data == spec_take_snapshot(
            stream,
            stream_id,
            t2,
        )->Ok_0.data,
{
}

/// Replays streams and writes their snapshot slots.
pub struct BankAccountAggregateSnapshotter<ES: EventStore> {
    eventstore: ES,
}

impl<ES: EventStore> BankAccountAggregateSnapshotter<ES> {
    /// The stream model of the owned store.
    pub closed spec fn streams(&self) -> Map<Seq<char>, Seq<BankAccountEventV>> {
        self.eventstore.streams()
    }

    /// The snapshot model of the owned store.
    pub closed spec fn snapshots(&self) -> Map<Seq<char>, SnapshotV<BankAccountV>> {
        self.eventstore.snapshots()
    }

    /// The owned store's well-formedness.
    pub closed spec fn inv(&self) -> bool {
        self.eventstore.inv()
    }

    pub fn new(eventstore: ES) -> (r: Self)
        ensures
            r.streams() == eventstore.streams(),
            r.snapshots() == eventstore.snapshots(),
            r.inv() == eventstore.inv(),
    {
        Self { eventstore }
    }

    /// Hands the owned store back.
    pub fn into_eventstore(self) -> (r: ES)
        ensures
            r.streams() == self.streams(),
            r.snapshots() == self.snapshots(),
            r.inv() == self.inv(),
    {
        self.eventstore
    }

    /// Replays the account's whole stream and records the result in the
    /// stream's snapshot slot, stamped with the current time.
    pub fn take_snapshot(&mut self, bank_account_id: BankAccountId) -> (r: Result<(), Error>)
        requires
            old(self).inv(),
        ensures
            final(self).inv(),
            final(self).streams() == old(self).streams(),
            ({
                let sid = spec_stream_id(bank_account_id@);
                let stream = stream_of(old(self).streams(), sid);
                match r {
                    Ok(_) => exists|t: i64|
                        (#[trigger] spec_take_snapshot(stream, sid, t)) matches Ok(snap)
                            && final(self).snapshots() == old(self).snapshots().insert(sid, snap),
                    Err(e) => final(self).snapshots() == old(self).snapshots()
                        && spec_take_snapshot(stream, sid, 0) == Err::<
                        SnapshotV<BankAccountV>,
                        ErrorV,
                    >(e@),
                }
            }),
    {
        let stream_id = BankAccountAggregate::stream_id(&bank_account_id);
        let ghost sid = spec_stream_id(bank_account_id@);
        let ghost stream = stream_of(self.streams(), sid);
        match self.eventstore.event_stream_since(stream_id.clone(), 1) {
            Err(e) => {
                proof {
                    assert(events_since(stream, 1u64) =~= stream);
                }
                match e.kind() {
                    EventStoreErrorKind::NoEventStreamError(_, _) => Err(
                        Error::new(ErrorKind::EventStoreError(e.into_kind())),
                    ),
                    _ => {
                        proof {
                            assert(false);
                        }
                        unreached()
                    },
                }
            },
            Ok(es) => {
                proof {
                    assert(events_since(stream, 1u64) =~= stream);
                }
                let history = clone_events(es.events());
                let version = es.version();
                let base = BankAccountAggregate::new();
                match BankAccountAggregate::load_from_history(&base, history, version) {
                    Err(e) => Err(Error::new(ErrorKind::BankAccountError(e.into_kind()))),
                    Ok(aggregate) => {
                        proof {
                            lemma_fold_nonempty_has_state(spec_new_aggregate(), stream);
                        }
                        let state = match aggregate.state() {
                            Option::Some(ba) => ba.clone(),
                            Option::None => {
                                proof {
                                    assert(false);
                                }
                                unreached()
                            },
                        };
                        let now = now_timestamp();
                        let ghost t0 = now.millis;
                        let snapshot = Snapshot::new(stream_id, version, state, now);
                        match self.eventstore.record_snapshot(snapshot) {
                            Ok(_) => {
                                proof {
                                    assert(spec_take_snapshot(stream, sid, t0) matches Ok(snap)
                                        && self.snapshots() == old(self).snapshots().insert(
                                        sid,
                                        snap,
                                    ));
                                }
                                Ok(())
                            },
                            Err(_) => {
                                proof {
                                    assert(false);
                                }
                                unreached()
                            },
                        }
                    },
                }
            },
        }
    }
}

} // verus!
