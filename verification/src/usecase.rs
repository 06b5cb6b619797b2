//! The command use case: the load → decide → apply → append → publish
//! pipeline binding the aggregate to the event store.

use vstd::prelude::*;

use crate::aggregate::{
    clone_events, spec_fold_events, spec_handle, spec_stream_id, BankAccountAggregate,
    BankAccountAggregateV, BankAccountCommand, BankAccountCommandV, BankAccountEvent,
    BankAccountEventV, BankAccountId, BankAccountName, BankAccountV,
};
use crate::clock::now_timestamp;
use vstd::pervasive::unreached;
use vstd::string::StringExecFns;
use crate::eventsourcing::{
    append_streams, can_append, events_since, stream_of, EventPublisher, EventStore,
    EventStoreErrorKind, EventStoreErrorV, SnapshotV,
};

verus! {

/// Mathematical model of a use-case error.
pub enum ErrorV {
    BankAccountNotFound(Seq<char>),
    EventStoreError(EventStoreErrorV),
    BankAccountError(crate::aggregate::ErrorV),
}

/// The unified error kinds at the use-case boundary.
#[derive(Debug)]
pub enum ErrorKind {
    /// No snapshot and no stream exist for the account.
    BankAccountNotFound(BankAccountId),
    /// The store refused a read or an append.
    EventStoreError(EventStoreErrorKind),
    /// The domain refused the command or an event.
    BankAccountError(crate::aggregate::ErrorKind),
}

impl View for ErrorKind {
    type V = ErrorV;

    open spec fn view(&self) -> ErrorV {
        match self {
            ErrorKind::BankAccountNotFound(id) => ErrorV::BankAccountNotFound(id@),
            ErrorKind::EventStoreError(k) => ErrorV::EventStoreError(k@),
            ErrorKind::BankAccountError(k) => ErrorV::BankAccountError(k@),
        }
    }
}

/// A use-case failure, carrying its kind.
#[derive(Debug)]
pub struct Error {
    kind: ErrorKind,
}

impl View for Error {
    type V = ErrorV;

    closed spec fn view(&self) -> ErrorV {
        self.kind@
    }
}

impl Error {
    pub fn new(kind: ErrorKind) -> (r: Self)
        ensures
            r@ == kind@,
    {
        Self { kind }
    }

    pub fn kind(&self) -> (r: &ErrorKind)
        ensures
            r@ == self@,
    {
        &self.kind
    }
}

/// What loading an aggregate yields, over the store model: the snapshot (if
/// any) as the base, the events after it folded on top, and the version of
/// the last event of the stream. `None` means the account does not exist. A
/// snapshot at the last representable version is taken as latest.
pub open spec fn spec_load(
    streams: Map<Seq<char>, Seq<BankAccountEventV>>,
    snaps: Map<Seq<char>, SnapshotV<BankAccountV>>,
    stream_id: Seq<char>,
) -> Result<Option<BankAccountAggregateV>, crate::aggregate::ErrorV> {
    let stream = stream_of(streams, stream_id);
    if snaps.contains_key(stream_id) {
        let snap = snaps[stream_id];
        let base = BankAccountAggregateV {
            state: Option::Some(snap.data),
            version: snap.stream_version,
        };
        if snap.stream_version < u64::MAX && snap.stream_version < stream.len() {
            match spec_fold_events(base, stream.skip(snap.stream_version as int)) {
                Ok(a) => Ok(
                    Option::Some(
                        BankAccountAggregateV { state: a.state, version: stream.len() as u64 },
                    ),
                ),
                Err(de) => Err(de),
            }
        } else {
            Ok(Option::Some(base))
        }
    } else {
        if stream.len() == 0 {
            Ok(Option::None)
        } else {
            match spec_fold_events(
                BankAccountAggregateV { state: Option::None, version: 0 },
                stream,
            ) {
                Ok(a) => Ok(
                    Option::Some(
                        BankAccountAggregateV { state: a.state, version: stream.len() as u64 },
                    ),
                ),
                Err(de) => Err(de),
            }
        }
    }
}

/// The version the load yields: the last loaded stream version, 0 for a
/// fresh or unloadable aggregate.
pub open spec fn spec_loaded_version(
    streams: Map<Seq<char>, Seq<BankAccountEventV>>,
    snaps: Map<Seq<char>, SnapshotV<BankAccountV>>,
    stream_id: Seq<char>,
) -> u64 {
    match spec_load(streams, snaps, stream_id) {
        Ok(Option::Some(a)) => a.version,
        _ => 0,
    }
}

/// The canonical decision: load the aggregate, decide the command at time
/// `at`, and check the decided events against the domain rules. `Ok` carries
/// the events to append.
pub open spec fn spec_decide_events(
    streams: Map<Seq<char>, Seq<BankAccountEventV>>,
    snaps: Map<Seq<char>, SnapshotV<BankAccountV>>,
    id: Seq<char>,
    command: BankAccountCommandV,
    at: i64,
) -> Result<Seq<BankAccountEventV>, crate::aggregate::ErrorV> {
    match spec_load(streams, snaps, spec_stream_id(id)) {
        Err(de) => Err(de),
        Ok(loaded) => {
            let agg = match loaded {
                Option::Some(a) => a,
                Option::None => BankAccountAggregateV { state: Option::None, version: 0 },
            };
            match spec_handle(agg, command, at) {
                Err(de) => Err(de),
                Ok(events) => match spec_fold_events(agg, events) {
                    Err(de) => Err(de),
                    Ok(_) => Ok(events),
                },
            }
        },
    }
}

/// What a mutation method guarantees: on success there was a time at which
/// the decision produced the appended events, and the stream grew by exactly
/// them at the next free version; on failure the streams are unchanged and
/// the error names what refused the command.
pub open spec fn mutation_post(
    streams0: Map<Seq<char>, Seq<BankAccountEventV>>,
    snaps0: Map<Seq<char>, SnapshotV<BankAccountV>>,
    streams1: Map<Seq<char>, Seq<BankAccountEventV>>,
    id: Seq<char>,
    command: BankAccountCommandV,
    r: Result<(), Error>,
) -> bool {
    let sid = spec_stream_id(id);
    let v = spec_loaded_version(streams0, snaps0, sid);
    match r {
        Ok(_) => {
            &&& v < u64::MAX
            &&& exists|t: i64|
                (#[trigger] spec_decide_events(streams0, snaps0, id, command, t)) matches Ok(events)
                    && can_append(streams0, sid, (v + 1) as u64, events.len()) && streams1
                    == append_streams(streams0, sid, events)
        },
        Err(e) => {
            &&& streams1 == streams0
            &&& match e@ {
                ErrorV::BankAccountError(de) => exists|t: i64|
                    #[trigger] spec_decide_events(streams0, snaps0, id, command, t) == Err::<
                        Seq<BankAccountEventV>,
                        crate::aggregate::ErrorV,
                    >(de),
                ErrorV::EventStoreError(se) => {
                    &&& (se is DuplicateEntryError || se is AppendEventStreamError)
                    &&& (v == u64::MAX || exists|t: i64|
                        (#[trigger] spec_decide_events(
                            streams0,
                            snaps0,
                            id,
                            command,
                            t,
                        )) matches Ok(events) && !can_append(
                            streams0,
                            sid,
                            (v + 1) as u64,
                            events.len(),
                        ))
                },
                ErrorV::BankAccountNotFound(_) => false,
            }
        },
    }
}

/// Orchestrates commands against one event store and publishes committed
/// events; stateless beyond the store and publisher it owns.
pub struct BankAccountAggregateUseCase<ES: EventStore, P: EventPublisher> {
    eventstore: ES,
    publisher: P,
}

impl<ES: EventStore, P: EventPublisher> BankAccountAggregateUseCase<ES, P> {
    /// The stream model of the owned store.
    pub closed spec fn streams(&self) -> Map<Seq<char>, Seq<BankAccountEventV>> {
        self.eventstore.streams()
    }

    /// The snapshot model of the owned store.
    pub closed spec fn snapshots(&self) -> Map<Seq<char>, SnapshotV<BankAccountV>> {
        self.eventstore.snapshots()
    }

    /// The owned store's well-formedness.
    pub closed spec fn inv(&self) -> bool {
        self.eventstore.inv()
    }

    pub fn new(eventstore: ES, publisher: P) -> (r: Self)
        ensures
            r.streams() == eventstore.streams(),
            r.snapshots() == eventstore.snapshots(),
            r.inv() == eventstore.inv(),
    {
        Self { eventstore, publisher }
    }

    /// Hands the owned store back.
    pub fn into_eventstore(self) -> (r: ES)
        ensures
            r.streams() == self.streams(),
            r.snapshots() == self.snapshots(),
            r.inv() == self.inv(),
    {
        self.eventstore
    }

    /// The current aggregate of the account: snapshot plus later events, or
    /// the whole stream; absent both, the account is not found.
    pub fn get(&self, bank_account_id: BankAccountId) -> (r: Result<BankAccountAggregate, Error>)
        requires
            self.inv(),
        ensures
            ({
                let lr = spec_load(self.streams(), self.snapshots(), spec_stream_id(
                    bank_account_id@,
                ));
                match r {
                    Ok(agg) => lr == Ok::<_, crate::aggregate::ErrorV>(
                        Option::Some(agg@),
                    ),
                    Err(e) => match e@ {
                        ErrorV::BankAccountNotFound(i) => i == bank_account_id@ && lr == Ok::<
                            Option<BankAccountAggregateV>,
                            crate::aggregate::ErrorV,
                        >(Option::None),
                        ErrorV::BankAccountError(de) => lr == Err::<
                            Option<BankAccountAggregateV>,
                            crate::aggregate::ErrorV,
                        >(de),
                        _ => false,
                    },
                }
            }),
    {
        match self.load_aggregate(&bank_account_id) {
            Ok(Some(aggregate)) => Ok(aggregate),
            Ok(None) => Err(Error::new(ErrorKind::BankAccountNotFound(bank_account_id))),
            Err(e) => Err(e),
        }
    }

    /// Opens the account under the given name.
    pub fn open(&mut self, bank_account_id: BankAccountId, name: BankAccountName) -> (r: Result<
        (),
        Error,
    >)
        requires
            old(self).inv(),
        ensures
            final(self).inv(),
            final(self).snapshots() == old(self).snapshots(),
            mutation_post(
                old(self).streams(),
                old(self).snapshots(),
                final(self).streams(),
                bank_account_id@,
                BankAccountCommandV::Open { bank_account_id: bank_account_id@, name: name@ },
                r,
            ),
    {
        let command = BankAccountCommand::Open {
            bank_account_id: bank_account_id.clone(),
            name,
        };
        self.handle_command(bank_account_id, command)
    }

    /// Renames the account.
    pub fn update(&mut self, bank_account_id: BankAccountId, name: BankAccountName) -> (r: Result<
        (),
        Error,
    >)
        requires
            old(self).inv(),
        ensures
            final(self).inv(),
            final(self).snapshots() == old(self).snapshots(),
            mutation_post(
                old(self).streams(),
                old(self).snapshots(),
                final(self).streams(),
                bank_account_id@,
                BankAccountCommandV::Update { bank_account_id: bank_account_id@, name: name@ },
                r,
            ),
    {
        let command = BankAccountCommand::Update {
            bank_account_id: bank_account_id.clone(),
            name,
        };
        self.handle_command(bank_account_id, command)
    }

    /// Deposits the amount into the account.
    pub fn deposit(&mut self, bank_account_id: BankAccountId, deposit: i32) -> (r: Result<
        (),
        Error,
    >)
        requires
            old(self).inv(),
        ensures
            final(self).inv(),
            final(self).snapshots() == old(self).snapshots(),
            mutation_post(
                old(self).streams(),
                old(self).snapshots(),
                final(self).streams(),
                bank_account_id@,
                BankAccountCommandV::Deposit { bank_account_id: bank_account_id@, deposit },
                r,
            ),
    {
        let command = BankAccountCommand::Deposit {
            bank_account_id: bank_account_id.clone(),
            deposit,
        };
        self.handle_command(bank_account_id, command)
    }

    /// Withdraws the amount from the account.
    pub fn withdraw(&mut self, bank_account_id: BankAccountId, withdraw: i32) -> (r: Result<
        (),
        Error,
    >)
        requires
            old(self).inv(),
        ensures
            final(self).inv(),
            final(self).snapshots() == old(self).snapshots(),
            mutation_post(
                old(self).streams(),
                old(self).snapshots(),
                final(self).streams(),
                bank_account_id@,
                BankAccountCommandV::Withdraw { bank_account_id: bank_account_id@, withdraw },
                r,
            ),
    {
        let command = BankAccountCommand::Withdraw {
            bank_account_id: bank_account_id.clone(),
            withdraw,
        };
        self.handle_command(bank_account_id, command)
    }

    /// Closes the account.
    pub fn close(&mut self, bank_account_id: BankAccountId) -> (r: Result<(), Error>)
        requires
            old(self).inv(),
        ensures
            final(self).inv(),
            final(self).snapshots() == old(self).snapshots(),
            mutation_post(
                old(self).streams(),
                old(self).snapshots(),
                final(self).streams(),
                bank_account_id@,
                BankAccountCommandV::Close { bank_account_id: bank_account_id@ },
                r,
            ),
    {
        let command = BankAccountCommand::Close { bank_account_id: bank_account_id.clone() };
        self.handle_command(bank_account_id, command)
    }

    /// Loads the current aggregate: from the snapshot plus the events after
    /// it, from the whole stream, or not at all.
    fn load_aggregate(&self, bank_account_id: &BankAccountId) -> (r: Result<
        Option<BankAccountAggregate>,
        Error,
    >)
        requires
            self.inv(),
        ensures
            ({
                let lr = spec_load(self.streams(), self.snapshots(), spec_stream_id(
                    bank_account_id@,
                ));
                match r {
                    Ok(Some(agg)) => lr == Ok::<_, crate::aggregate::ErrorV>(
                        Option::Some(agg@),
                    ),
                    Ok(None) => lr == Ok::<Option<BankAccountAggregateV>, crate::aggregate::ErrorV>(
                        Option::None,
                    ),
                    Err(e) => lr matches Err(de) && e@ == ErrorV::BankAccountError(de),
                }
            }),
    {
        let stream_id = BankAccountAggregate::stream_id(bank_account_id);
        let ghost sid = spec_stream_id(bank_account_id@);
        let ghost stream = stream_of(self.streams(), sid);
        let snap_opt = match self.eventstore.read_snapshot(stream_id.clone()) {
            Ok(opt) => opt,
            Err(_) => {
                proof {
                    assert(false);
                }
                unreached()
            },
        };
        match snap_opt {
            Some(snapshot) => {
                let snap_version = snapshot.stream_version();
                let aggregate = BankAccountAggregate::load_from_snapshot(snapshot);
                if snap_version == u64::MAX {
                    return Ok(Some(aggregate));
                }
                match self.eventstore.event_stream_since(stream_id, snap_version + 1) {
                    Ok(es) => {
                        proof {
                            assert(events_since(stream, (snap_version + 1) as u64) =~= stream.skip(
                                snap_version as int,
                            ));
                        }
                        let history = clone_events(es.events());
                        let version = es.version();
                        match BankAccountAggregate::load_from_history(
                            &aggregate,
                            history,
                            version,
                        ) {
                            Ok(a2) => Ok(Some(a2)),
                            Err(e) => Err(
                                Error::new(ErrorKind::BankAccountError(e.into_kind())),
                            ),
                        }
                    },
                    Err(e) => {
                        match e.kind() {
                            EventStoreErrorKind::NoEventStreamError(_, _) => {
                                proof {
                                    if snap_version < stream.len() {
                                        assert(events_since(
                                            stream,
                                            (snap_version + 1) as u64,
                                        ) =~= stream.skip(snap_version as int));
                                    }
                                }
                                Ok(Some(aggregate))
                            },
                            _ => {
                                proof {
                                    assert(false);
                                }
                                unreached()
                            },
                        }
                    },
                }
            },
            None => {
                match self.eventstore.event_stream_since(stream_id, 1) {
                    Ok(es) => {
                        proof {
                            assert(events_since(stream, 1u64) =~= stream);
                        }
                        let aggregate = BankAccountAggregate::new();
                        let history = clone_events(es.events());
                        let version = es.version();
                        match BankAccountAggregate::load_from_history(
                            &aggregate,
                            history,
                            version,
                        ) {
                            Ok(a2) => Ok(Some(a2)),
                            Err(e) => Err(
                                Error::new(ErrorKind::BankAccountError(e.into_kind())),
                            ),
                        }
                    },
                    Err(e) => {
                        match e.kind() {
                            EventStoreErrorKind::NoEventStreamError(_, _) => {
                                proof {
                                    assert(events_since(stream, 1u64) =~= stream);
                                }
                                Ok(None)
                            },
                            _ => {
                                proof {
                                    assert(false);
                                }
                                unreached()
                            },
                        }
                    },
                }
            },
        }
    }

    /// Runs the pipeline for one command: load, decide, apply, append,
    /// publish. A publish failure cannot undo the append; the publisher is
    /// handed each committed event in order.
    fn handle_command(&mut self, id: BankAccountId, command: BankAccountCommand) -> (r: Result<
        (),
        Error,
    >)
        requires
            old(self).inv(),
        ensures
            final(self).inv(),
            final(self).snapshots() == old(self).snapshots(),
            mutation_post(
                old(self).streams(),
                old(self).snapshots(),
                final(self).streams(),
                id@,
                command@,
                r,
            ),
    {
        let ghost streams0 = self.streams();
        let ghost snaps0 = self.snapshots();
        let ghost sid = spec_stream_id(id@);
        let aggregate = match self.load_aggregate(&id) {
            Ok(Some(a)) => a,
            Ok(None) => BankAccountAggregate::new(),
            Err(e) => {
                proof {
                    assert(spec_load(streams0, snaps0, sid) matches Err(de) && spec_decide_events(
                        streams0,
                        snaps0,
                        id@,
                        command@,
                        0,
                    ) == Err::<Seq<BankAccountEventV>, crate::aggregate::ErrorV>(de));
                }
                return Err(e);
            },
        };
        let now = now_timestamp();
        let ghost t0 = now.millis;
        let events = match BankAccountAggregate::handle_command_at(&aggregate, command, now) {
            Ok(evs) => evs,
            Err(e) => {
                return Err(Error::new(ErrorKind::BankAccountError(e.into_kind())));
            },
        };
        let version = aggregate.version();
        match BankAccountAggregate::load_from_history(&aggregate, clone_events(&events), version) {
            Ok(_) => (),
            Err(e) => {
                return Err(Error::new(ErrorKind::BankAccountError(e.into_kind())));
            },
        };
        if version == u64::MAX {
            return Err(
                Error::new(
                    ErrorKind::EventStoreError(
                        EventStoreErrorKind::AppendEventStreamError(
                            String::from_str("the version space is exhausted"),
                        ),
                    ),
                ),
            );
        }
        let stream_id = BankAccountAggregate::stream_id(&id);
        let to_store = clone_events(&events);
        match self.eventstore.append_event_stream(stream_id, version + 1, to_store) {
            Ok(_) => {
                let mut k: usize = 0;
                while k < events.len()
                    decreases events@.len() - k,
                {
                    self.publisher.publish(&events[k]);
                    k = k + 1;
                }
                proof {
                    assert(spec_decide_events(streams0, snaps0, id@, command@, t0) matches Ok(evs)
                        && can_append(streams0, sid, (spec_loaded_version(streams0, snaps0, sid)
                        + 1) as u64, evs.len()) && self.streams() == append_streams(
                        streams0,
                        sid,
                        evs,
                    ));
                }
                Ok(())
            },
            Err(e) => Err(Error::new(ErrorKind::EventStoreError(e.into_kind()))),
        }
    }
}

} // verus!
