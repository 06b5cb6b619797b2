use std::cell::RefCell;
use std::rc::Rc;

use cqrses_bankaccount::aggregate::{
    BankAccountEvent, BankAccountId, BankAccountName, ErrorKind as BankAccountErrorKind,
};
use cqrses_bankaccount::dao::{BankAccountDao, BankAccountRM};
use cqrses_bankaccount::clock::Timestamp;
use cqrses_bankaccount::eventsourcing::{EventPublisher, EventStore, EventStoreErrorKind, EventStreamId};
use cqrses_bankaccount::inmemory_eventstore::StoredEvent;
use cqrses_bankaccount::inmemory_eventstore::InmemoryBankAccountEventStore;
use cqrses_bankaccount::projector::BankAccountProjector;
use cqrses_bankaccount::snapshotter::BankAccountAggregateSnapshotter;
use cqrses_bankaccount::usecase::{BankAccountAggregateUseCase, ErrorKind};


fn now_timestamp() -> Timestamp {
    Timestamp::new(chrono::Local::now().timestamp_millis())
}

struct NopPublisher;

impl EventPublisher for NopPublisher {
    fn publish(&self, _event: &BankAccountEvent) {}
}

struct CountingPublisher {
    published: Rc<RefCell<Vec<String>>>,
}

impl EventPublisher for CountingPublisher {
    fn publish(&self, event: &BankAccountEvent) {
        self.published
            .borrow_mut()
            .push(String::from(event.event_type()));
    }
}

fn account_id() -> BankAccountId {
    BankAccountId::new(String::from("67e55044-10b1-426f-9247-bb680e5fe0c8")).unwrap()
}

fn name(value: &str) -> BankAccountName {
    BankAccountName::new(String::from(value)).unwrap()
}

fn opened_event() -> BankAccountEvent {
    BankAccountEvent::Opened {
        bank_account_id: account_id(),
        name: name("foo"),
        occurred_at: now_timestamp(),
    }
}

#[test]
fn eventstore_test_inmemory_store() {
    let mut store = InmemoryBankAccountEventStore::new();

    let bank_account_id = account_id();

    let stream_id = format!("bank_account:{}", bank_account_id.to_string());

    let events = vec![opened_event()];

    let result = store.append_event_stream(stream_id, 1, events);
    assert!(result.is_ok());

    let result = store.event_stream_since(
        String::from("bank_account:67e55044-10b1-426f-9247-bb680e5fe0c8"),
        1,
    );
    assert!(result.is_ok());

    let stream = result.unwrap();
    assert_eq!(stream.events().len(), 1);
}

#[test]
fn inmemory_eventstore_test_inmemory_store() {
    let mut store = InmemoryBankAccountEventStore::new();

    let bank_account_id = account_id();

    let stream_id = format!("bank_account:{}", bank_account_id.to_string());

    let events = vec![opened_event()];

    let result = store.append_event_stream(stream_id.clone(), 1, events);
    assert!(result.is_ok());

    let result = store.event_stream_since(stream_id, 1);
    assert!(result.is_ok());

    let stream = result.unwrap();
    assert_eq!(stream.events().len(), 1);
    assert_eq!(stream.version(), 1);
}

#[test]
fn test_append_then_read_returns_the_events() {
    let mut store = InmemoryBankAccountEventStore::new();
    let stream_id = String::from("bank_account:67e55044-10b1-426f-9247-bb680e5fe0c8");

    let open = opened_event();
    assert!(store
        .append_event_stream(stream_id.clone(), 1, vec![open.clone()])
        .is_ok());

    let deposit = BankAccountEvent::Deposited {
        bank_account_id: account_id(),
        deposit: 500,
        occurred_at: now_timestamp(),
    };
    let withdraw = BankAccountEvent::Withdrawn {
        bank_account_id: account_id(),
        withdraw: 300,
        occurred_at: now_timestamp(),
    };
    assert!(store
        .append_event_stream(
            stream_id.clone(),
            2,
            vec![deposit.clone(), withdraw.clone()]
        )
        .is_ok());

    // Reading since version 2 returns exactly the two events of the second
    // append, in order.
    let stream = store.event_stream_since(stream_id.clone(), 2).unwrap();
    assert_eq!(stream.events().len(), 2);
    assert_eq!(stream.events()[0], deposit);
    assert_eq!(stream.events()[1], withdraw);
    assert_eq!(stream.version(), 3);

    // Reading from the start returns the whole stream.
    let stream = store.event_stream_since(stream_id.clone(), 1).unwrap();
    assert_eq!(stream.events().len(), 3);
    assert_eq!(stream.events()[0], open);

    // Reading past the end finds nothing.
    match store.event_stream_since(stream_id, 4) {
        Err(e) => match e.kind() {
            EventStoreErrorKind::NoEventStreamError(sid, from) => {
                assert_eq!(
                    sid.as_str(),
                    "bank_account:67e55044-10b1-426f-9247-bb680e5fe0c8"
                );
                assert_eq!(*from, 4);
            }
            _ => assert!(false),
        },
        _ => assert!(false),
    }
}

#[test]
fn test_append_conflicts_and_refusals() {
    let mut store = InmemoryBankAccountEventStore::new();
    let stream_id = String::from("bank_account:67e55044-10b1-426f-9247-bb680e5fe0c8");

    // An empty batch is refused.
    match store.append_event_stream(stream_id.clone(), 1, vec![]) {
        Err(e) => match e.kind() {
            EventStoreErrorKind::NoEventsError => assert!(true),
            _ => assert!(false),
        },
        _ => assert!(false),
    }

    // A batch that would skip versions is refused.
    match store.append_event_stream(stream_id.clone(), 5, vec![opened_event()]) {
        Err(e) => match e.kind() {
            EventStoreErrorKind::AppendEventStreamError(_) => assert!(true),
            _ => assert!(false),
        },
        _ => assert!(false),
    }

    // Two writers race on version 1: exactly one append lands.
    assert!(store
        .append_event_stream(stream_id.clone(), 1, vec![opened_event()])
        .is_ok());
    match store.append_event_stream(stream_id.clone(), 1, vec![opened_event()]) {
        Err(e) => match e.kind() {
            EventStoreErrorKind::DuplicateEntryError(_) => assert!(true),
            _ => assert!(false),
        },
        _ => assert!(false),
    }

    // The losing write left no trace.
    let stream = store.event_stream_since(stream_id, 1).unwrap();
    assert_eq!(stream.events().len(), 1);
    assert_eq!(stream.version(), 1);
}

#[test]
fn test_scenario_open_then_read() {
    let store = InmemoryBankAccountEventStore::new();
    let mut usecase = BankAccountAggregateUseCase::new(store, NopPublisher);
    let id = account_id();

    assert!(usecase.open(id.clone(), name("foo")).is_ok());

    let aggregate = usecase.get(id).unwrap();
    let ba = aggregate.state().as_ref().unwrap();
    assert_eq!(ba.name().value(), "foo");
    assert_eq!(ba.balance(), 0);
    assert_eq!(ba.is_closed(), false);
    assert_eq!(aggregate.version(), 1);
}

#[test]
fn test_scenario_deposit_then_withdraw() {
    let store = InmemoryBankAccountEventStore::new();
    let mut usecase = BankAccountAggregateUseCase::new(store, NopPublisher);
    let id = account_id();

    assert!(usecase.open(id.clone(), name("foo")).is_ok());
    assert!(usecase.deposit(id.clone(), 500).is_ok());
    assert!(usecase.withdraw(id.clone(), 300).is_ok());

    let aggregate = usecase.get(id).unwrap();
    assert_eq!(aggregate.state().as_ref().unwrap().balance(), 200);
    assert_eq!(aggregate.version(), 3);
}

#[test]
fn test_scenario_zero_deposit() {
    let store = InmemoryBankAccountEventStore::new();
    let mut usecase = BankAccountAggregateUseCase::new(store, NopPublisher);
    let id = account_id();

    assert!(usecase.open(id.clone(), name("foo")).is_ok());

    match usecase.deposit(id.clone(), 0) {
        Err(e) => match e.kind() {
            ErrorKind::BankAccountError(BankAccountErrorKind::DepositZero(_, _)) => assert!(true),
            _ => assert!(false),
        },
        _ => assert!(false),
    }

    // Nothing was appended.
    let aggregate = usecase.get(id).unwrap();
    assert_eq!(aggregate.version(), 1);
}

#[test]
fn test_scenario_over_withdraw() {
    let store = InmemoryBankAccountEventStore::new();
    let mut usecase = BankAccountAggregateUseCase::new(store, NopPublisher);
    let id = account_id();

    assert!(usecase.open(id.clone(), name("foo")).is_ok());
    assert!(usecase.deposit(id.clone(), 100).is_ok());

    match usecase.withdraw(id.clone(), 200) {
        Err(e) => match e.kind() {
            ErrorKind::BankAccountError(BankAccountErrorKind::NegativeBalance(_, _)) => {
                assert!(true)
            }
            _ => assert!(false),
        },
        _ => assert!(false),
    }

    // The stream length is unchanged.
    let aggregate = usecase.get(id).unwrap();
    assert_eq!(aggregate.version(), 2);
    assert_eq!(aggregate.state().as_ref().unwrap().balance(), 100);
}

#[test]
fn test_scenario_close_then_mutate() {
    let store = InmemoryBankAccountEventStore::new();
    let mut usecase = BankAccountAggregateUseCase::new(store, NopPublisher);
    let id = account_id();

    assert!(usecase.open(id.clone(), name("foo")).is_ok());
    assert!(usecase.close(id.clone()).is_ok());

    match usecase.deposit(id.clone(), 10) {
        Err(e) => match e.kind() {
            ErrorKind::BankAccountError(BankAccountErrorKind::AlreadyClosed(_)) => assert!(true),
            _ => assert!(false),
        },
        _ => assert!(false),
    }

    let aggregate = usecase.get(id).unwrap();
    assert_eq!(aggregate.state().as_ref().unwrap().is_closed(), true);
}

#[test]
fn test_scenario_concurrent_open() {
    // Two opens race on one store: the first lands, the second observes the
    // winner's state and is refused as already opened.
    let store = InmemoryBankAccountEventStore::new();
    let mut usecase = BankAccountAggregateUseCase::new(store, NopPublisher);
    let id = account_id();

    assert!(usecase.open(id.clone(), name("foo")).is_ok());
    match usecase.open(id.clone(), name("bar")) {
        Err(e) => match e.kind() {
            ErrorKind::BankAccountError(BankAccountErrorKind::AlreadyOpened(_)) => assert!(true),
            _ => assert!(false),
        },
        _ => assert!(false),
    }
    let aggregate = usecase.get(id).unwrap();
    assert_eq!(aggregate.state().as_ref().unwrap().name().value(), "foo");
}

#[test]
fn test_scenario_mutate_unknown_account() {
    let store = InmemoryBankAccountEventStore::new();
    let mut usecase = BankAccountAggregateUseCase::new(store, NopPublisher);
    let id = account_id();

    match usecase.deposit(id.clone(), 10) {
        Err(e) => match e.kind() {
            ErrorKind::BankAccountError(BankAccountErrorKind::InvalidState(_)) => assert!(true),
            _ => assert!(false),
        },
        _ => assert!(false),
    }

    match usecase.get(id) {
        Err(e) => match e.kind() {
            ErrorKind::BankAccountNotFound(missing) => {
                assert_eq!(
                    missing.to_string(),
                    "67e55044-10b1-426f-9247-bb680e5fe0c8"
                );
            }
            _ => assert!(false),
        },
        _ => assert!(false),
    }
}

#[test]
fn test_publish_follows_appends_in_order() {
    let store = InmemoryBankAccountEventStore::new();
    let published = Rc::new(RefCell::new(Vec::new()));
    let publisher = CountingPublisher {
        published: Rc::clone(&published),
    };
    let mut usecase = BankAccountAggregateUseCase::new(store, publisher);
    let id = account_id();

    assert!(usecase.open(id.clone(), name("foo")).is_ok());
    assert!(usecase.deposit(id.clone(), 500).is_ok());
    // A refused command publishes nothing.
    assert!(usecase.deposit(id.clone(), 0).is_err());
    assert!(usecase.close(id).is_ok());

    assert_eq!(
        *published.borrow(),
        vec![
            String::from("BankAccountOpened"),
            String::from("BankAccountDeposited"),
            String::from("BankAccountClosed"),
        ]
    );
}

#[test]
fn test_snapshot_accelerates_load_to_same_state() {
    let mut store = InmemoryBankAccountEventStore::new();
    let stream_id = String::from("bank_account:67e55044-10b1-426f-9247-bb680e5fe0c8");
    assert!(store
        .append_event_stream(stream_id.clone(), 1, vec![opened_event()])
        .is_ok());
    let deposit = BankAccountEvent::Deposited {
        bank_account_id: account_id(),
        deposit: 500,
        occurred_at: now_timestamp(),
    };
    assert!(store
        .append_event_stream(stream_id.clone(), 2, vec![deposit])
        .is_ok());

    let mut snapshotter = BankAccountAggregateSnapshotter::new(store);
    assert!(snapshotter.take_snapshot(account_id()).is_ok());

    // More events land after the snapshot.
    let mut usecase =
        BankAccountAggregateUseCase::new(snapshotter.into_eventstore(), NopPublisher);
    assert!(usecase.withdraw(account_id(), 200).is_ok());

    // Loading through the snapshot reaches the same state as replaying the
    // whole stream would.
    let aggregate = usecase.get(account_id()).unwrap();
    assert_eq!(aggregate.state().as_ref().unwrap().balance(), 300);
    assert_eq!(aggregate.version(), 3);
}

#[test]
fn test_snapshot_idempotence() {
    let mut store = InmemoryBankAccountEventStore::new();
    let stream_id = String::from("bank_account:67e55044-10b1-426f-9247-bb680e5fe0c8");
    assert!(store
        .append_event_stream(stream_id.clone(), 1, vec![opened_event()])
        .is_ok());
    assert!(store
        .append_event_stream(
            stream_id.clone(),
            2,
            vec![BankAccountEvent::Deposited {
                bank_account_id: account_id(),
                deposit: 500,
                occurred_at: now_timestamp(),
            }]
        )
        .is_ok());

    let mut snapshotter = BankAccountAggregateSnapshotter::new(store);
    assert!(snapshotter.take_snapshot(account_id()).is_ok());
    let store = snapshotter.into_eventstore();
    let first = store.read_snapshot(stream_id.clone()).unwrap().unwrap();
    let first_version = first.stream_version();
    let first_balance = first.snapshot().balance();
    let first_name = String::from(first.snapshot().name().value());

    let mut snapshotter = BankAccountAggregateSnapshotter::new(store);
    assert!(snapshotter.take_snapshot(account_id()).is_ok());
    let store = snapshotter.into_eventstore();
    let second = store.read_snapshot(stream_id).unwrap().unwrap();

    // Back-to-back snapshots with no new events agree on version and data.
    assert_eq!(first_version, 2);
    assert_eq!(second.stream_version(), 2);
    assert_eq!(second.snapshot().balance(), first_balance);
    assert_eq!(second.snapshot().name().value(), first_name.as_str());
}

#[test]
fn test_snapshot_of_missing_stream() {
    let store = InmemoryBankAccountEventStore::new();
    let mut snapshotter = BankAccountAggregateSnapshotter::new(store);
    match snapshotter.take_snapshot(account_id()) {
        Err(e) => match e.kind() {
            cqrses_bankaccount::snapshotter::ErrorKind::EventStoreError(
                EventStoreErrorKind::NoEventStreamError(_, from),
            ) => assert_eq!(*from, 1),
            _ => assert!(false),
        },
        _ => assert!(false),
    }
}

struct VecDao {
    records: RefCell<Vec<BankAccountRM>>,
}

impl BankAccountDao for VecDao {
    fn find(&self, bank_account_id: String) -> Option<BankAccountRM> {
        self.records
            .borrow()
            .iter()
            .find(|r| r.bank_account_id == bank_account_id)
            .cloned()
    }

    fn insert(&self, model: BankAccountRM) {
        self.records.borrow_mut().push(model);
    }

    fn update(&self, model: BankAccountRM) {
        let mut records = self.records.borrow_mut();
        match records
            .iter()
            .position(|r| r.bank_account_id == model.bank_account_id)
        {
            Some(i) => records[i] = model,
            None => records.push(model),
        }
    }
}

#[test]
fn test_projector_builds_read_model() {
    let dao = VecDao {
        records: RefCell::new(Vec::new()),
    };
    let projector = BankAccountProjector::new(dao);

    assert!(projector.project(opened_event()).is_ok());
    assert!(projector
        .project(BankAccountEvent::Deposited {
            bank_account_id: account_id(),
            deposit: 500,
            occurred_at: now_timestamp(),
        })
        .is_ok());
    assert!(projector
        .project(BankAccountEvent::Withdrawn {
            bank_account_id: account_id(),
            withdraw: 300,
            occurred_at: now_timestamp(),
        })
        .is_ok());
    assert!(projector
        .project(BankAccountEvent::Closed {
            bank_account_id: account_id(),
            occurred_at: now_timestamp(),
        })
        .is_ok());
}

#[test]
fn test_projector_missing_record() {
    let dao = VecDao {
        records: RefCell::new(Vec::new()),
    };
    let projector = BankAccountProjector::new(dao);

    match projector.project(BankAccountEvent::Deposited {
        bank_account_id: account_id(),
        deposit: 500,
        occurred_at: now_timestamp(),
    }) {
        Err(e) => match e.kind() {
            BankAccountErrorKind::NotYetOpened => assert!(true),
            _ => assert!(false),
        },
        _ => assert!(false),
    }
}

#[test]
fn test_event_stream_id_and_stored_event_carriers() {
    let id = EventStreamId::new(
        String::from("bank_account:67e55044-10b1-426f-9247-bb680e5fe0c8"),
        3,
    );
    assert_eq!(
        id.stream_name(),
        "bank_account:67e55044-10b1-426f-9247-bb680e5fe0c8"
    );
    assert_eq!(id.stream_version(), 3);

    let stored = StoredEvent::new(
        String::from("BankAccountOpened"),
        String::from("{}"),
        Timestamp::new(99),
        String::from("bank_account:67e55044-10b1-426f-9247-bb680e5fe0c8"),
        1,
    );
    assert_eq!(stored.event_type(), "BankAccountOpened");
    assert_eq!(stored.event_body(), "{}");
    assert_eq!(stored.event_occurred_at().millis(), 99);
    assert_eq!(
        stored.stream_id(),
        "bank_account:67e55044-10b1-426f-9247-bb680e5fe0c8"
    );
    assert_eq!(stored.stream_version(), 1);
}
