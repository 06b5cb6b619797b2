use cqrses_bankaccount::clock::Timestamp;
use cqrses_bankaccount::aggregate::{
    BankAccount, BankAccountAggregate, BankAccountCommand, BankAccountId, BankAccountName,
    ErrorKind,
};


fn now_timestamp() -> Timestamp {
    Timestamp::new(chrono::Local::now().timestamp_millis())
}

fn create_bank_account(is_closed: bool, balance: i32) -> BankAccount {
    BankAccount::new(
        BankAccountId::new(String::from("67e55044-10b1-426f-9247-bb680e5fe0c8")).unwrap(),
        BankAccountName::new(String::from("foo")).unwrap(),
        is_closed,
        balance,
        now_timestamp(),
        now_timestamp(),
    )
}

#[test]
fn test_new_bank_account_id() {
    let bank_account_id = BankAccountId::new(String::from("67e55044-10b1-426f-9247-bb680e5fe0c8"));
    assert!(bank_account_id.is_ok());
    assert_eq!(
        bank_account_id.unwrap().to_string(),
        "67e55044-10b1-426f-9247-bb680e5fe0c8"
    );

    match BankAccountId::new(String::from("!")) {
        Err(err) => match err.kind() {
            ErrorKind::InvalidBankAccountId(_) => assert!(true),
            _ => assert!(false),
        },
        _ => assert!(false),
    };
}

#[test]
fn test_bank_account_id_normalizes_case() {
    let bank_account_id = BankAccountId::new(String::from("67E55044-10B1-426F-9247-BB680E5FE0C8"));
    assert!(bank_account_id.is_ok());
    assert_eq!(
        bank_account_id.unwrap().to_string(),
        "67e55044-10b1-426f-9247-bb680e5fe0c8"
    );

    assert!(BankAccountId::new(String::from("67e55044-10b1-426f-9247-bb680e5fe0c")).is_err());
    assert!(BankAccountId::new(String::from("67e55044x10b1-426f-9247-bb680e5fe0c8")).is_err());
    assert!(BankAccountId::new(String::from("67e55044-10b1-426f-9247-bb680e5fe0cg")).is_err());
}

#[test]
fn test_new_bank_account_name() {
    let bank_account_name = BankAccountName::new(String::from("foo"));
    assert!(bank_account_name.is_ok());
    assert_eq!(bank_account_name.unwrap().value(), "foo");

    let str255 = "a".repeat(255);
    match BankAccountName::new(str255) {
        Err(err) => match err.kind() {
            ErrorKind::InvalidBankAccountName(_) => assert!(true),
            _ => assert!(false),
        },
        _ => assert!(false),
    };
}

#[test]
fn test_bank_account_name_bounds() {
    assert!(BankAccountName::new(String::from("")).is_err());
    assert!(BankAccountName::new("a".repeat(254)).is_ok());
    assert!(BankAccountName::new("a".repeat(255)).is_err());
    assert!(BankAccountName::new("a".repeat(300)).is_err());
    // The bound counts bytes, not characters.
    assert!(BankAccountName::new("é".repeat(127)).is_ok());
    assert!(BankAccountName::new("é".repeat(128)).is_err());
}

#[test]
fn test_bank_account_with_name() {
    let bank_account = create_bank_account(false, 0);
    match bank_account.with_name(
        BankAccountName::new(String::from("bar")).unwrap(),
        now_timestamp(),
    ) {
        Ok(ba) => assert_eq!(ba.name().value(), "bar"),
        _ => assert!(false),
    };

    let bank_account = create_bank_account(true, 0);
    match bank_account.with_name(
        BankAccountName::new(String::from("bar")).unwrap(),
        now_timestamp(),
    ) {
        Err(err) => match err.kind() {
            ErrorKind::AlreadyClosed(_) => assert!(true),
            _ => assert!(false),
        },
        _ => assert!(false),
    };
}

#[test]
fn test_bank_account_deposit() {
    let bank_account = create_bank_account(false, 0);
    match bank_account.deposit(500, now_timestamp()) {
        Ok(ba) => assert_eq!(ba.balance(), 500),
        _ => assert!(false),
    };

    let bank_account = create_bank_account(true, 0);
    match bank_account.deposit(500, now_timestamp()) {
        Err(err) => match err.kind() {
            ErrorKind::AlreadyClosed(_) => assert!(true),
            _ => assert!(false),
        },
        _ => assert!(false),
    };

    let bank_account = create_bank_account(false, 0);
    match bank_account.deposit(0, now_timestamp()) {
        Err(err) => match err.kind() {
            ErrorKind::DepositZero(_, _) => assert!(true),
            _ => assert!(false),
        },
        _ => assert!(false),
    };

    let bank_account = create_bank_account(false, 0);
    match bank_account.deposit(-500, now_timestamp()) {
        Err(err) => match err.kind() {
            ErrorKind::NegativeBalance(_, _) => assert!(true),
            _ => assert!(false),
        },
        _ => assert!(false),
    };
}

#[test]
fn test_bank_account_deposit_overflow() {
    let bank_account = create_bank_account(false, i32::MAX - 10);
    match bank_account.deposit(11, now_timestamp()) {
        Err(err) => match err.kind() {
            ErrorKind::NegativeBalance(_, n) => assert_eq!(*n, 11),
            _ => assert!(false),
        },
        _ => assert!(false),
    };
    match bank_account.deposit(10, now_timestamp()) {
        Ok(ba) => assert_eq!(ba.balance(), i32::MAX),
        _ => assert!(false),
    };
}

#[test]
fn test_bank_account_withdraw() {
    let bank_account = create_bank_account(false, 1000);
    match bank_account.withdraw(500, now_timestamp()) {
        Ok(ba) => assert_eq!(ba.balance(), 500),
        _ => assert!(false),
    };

    let bank_account = create_bank_account(true, 1000);
    match bank_account.withdraw(500, now_timestamp()) {
        Err(err) => match err.kind() {
            ErrorKind::AlreadyClosed(_) => assert!(true),
            _ => assert!(false),
        },
        _ => assert!(false),
    };

    let bank_account = create_bank_account(false, 1000);
    match bank_account.withdraw(0, now_timestamp()) {
        Err(err) => match err.kind() {
            ErrorKind::DepositZero(_, _) => assert!(true),
            _ => assert!(false),
        },
        _ => assert!(false),
    };

    let bank_account = create_bank_account(false, 1000);
    match bank_account.withdraw(1100, now_timestamp()) {
        Err(err) => match err.kind() {
            ErrorKind::NegativeBalance(_, _) => assert!(true),
            _ => assert!(false),
        },
        _ => assert!(false),
    };
}

#[test]
fn test_bank_account_close() {
    let bank_account = create_bank_account(false, 0);
    match bank_account.close(now_timestamp()) {
        Ok(ba) => assert!(ba.is_closed()),
        _ => assert!(false),
    };

    let bank_account = create_bank_account(true, 0);
    match bank_account.close(now_timestamp()) {
        Err(err) => match err.kind() {
            ErrorKind::AlreadyClosed(_) => assert!(true),
            _ => assert!(false),
        },
        _ => assert!(false),
    };
}

#[test]
fn test_aggregate_handle_open_bank_account_command() {
    let aggregate = BankAccountAggregate::new();

    let result = BankAccountAggregate::handle_command(
        &aggregate,
        BankAccountCommand::Open {
            bank_account_id: BankAccountId::new(String::from(
                "67e55044-10b1-426f-9247-bb680e5fe0c8",
            ))
            .unwrap(),
            name: BankAccountName::new(String::from("foo")).unwrap(),
        },
    );
    assert!(result.is_ok());

    let events = result.unwrap();
    assert_eq!(events.len(), 1);

    let result = BankAccountAggregate::apply_event(&aggregate, events[0].clone());
    let aggregate = result.unwrap();
    assert!(aggregate.state().is_some());

    let ba = aggregate.state().as_ref().unwrap();
    assert_eq!(ba.id().to_string(), "67e55044-10b1-426f-9247-bb680e5fe0c8");
    assert_eq!(ba.name().value(), "foo");
    assert_eq!(ba.is_closed(), false);
    assert_eq!(ba.balance(), 0);
}

#[test]
fn test_aggregate_handle_update_bank_account_command() {
    let bank_account_id =
        BankAccountId::new(String::from("67e55044-10b1-426f-9247-bb680e5fe0c8")).unwrap();

    let aggregate = BankAccountAggregate::load(
        BankAccount::new(
            bank_account_id.clone(),
            BankAccountName::new(String::from("foo")).unwrap(),
            false,
            0,
            now_timestamp(),
            now_timestamp(),
        ),
        1,
    );

    let result = BankAccountAggregate::handle_command(
        &aggregate,
        BankAccountCommand::Update {
            bank_account_id: bank_account_id.clone(),
            name: BankAccountName::new(String::from("bar")).unwrap(),
        },
    );
    assert!(result.is_ok());

    let events = result.unwrap();
    assert_eq!(events.len(), 1);

    let result = BankAccountAggregate::apply_event(&aggregate, events[0].clone());
    let aggregate = result.unwrap();
    assert!(aggregate.state().is_some());

    let ba = aggregate.state().as_ref().unwrap();
    assert_eq!(ba.id().to_string(), "67e55044-10b1-426f-9247-bb680e5fe0c8");
    assert_eq!(ba.name().value(), "bar");
    assert_eq!(ba.is_closed(), false);
    assert_eq!(ba.balance(), 0);
}

#[test]
fn test_aggregate_handle_deposit_bank_account_command() {
    let bank_account_id =
        BankAccountId::new(String::from("67e55044-10b1-426f-9247-bb680e5fe0c8")).unwrap();

    let aggregate = BankAccountAggregate::load(
        BankAccount::new(
            bank_account_id.clone(),
            BankAccountName::new(String::from("foo")).unwrap(),
            false,
            0,
            now_timestamp(),
            now_timestamp(),
        ),
        1,
    );

    let result = BankAccountAggregate::handle_command(
        &aggregate,
        BankAccountCommand::Deposit {
            bank_account_id: bank_account_id.clone(),
            deposit: 500,
        },
    );
    assert!(result.is_ok());

    let events = result.unwrap();
    assert_eq!(events.len(), 1);

    let result = BankAccountAggregate::apply_event(&aggregate, events[0].clone());
    let aggregate = result.unwrap();
    assert!(aggregate.state().is_some());

    let ba = aggregate.state().as_ref().unwrap();
    assert_eq!(ba.id().to_string(), "67e55044-10b1-426f-9247-bb680e5fe0c8");
    assert_eq!(ba.name().value(), "foo");
    assert_eq!(ba.is_closed(), false);
    assert_eq!(ba.balance(), 500);
}

#[test]
fn test_aggregate_handle_withdraw_bank_account_command() {
    let bank_account_id =
        BankAccountId::new(String::from("67e55044-10b1-426f-9247-bb680e5fe0c8")).unwrap();

    let aggregate = BankAccountAggregate::load(
        BankAccount::new(
            bank_account_id.clone(),
            BankAccountName::new(String::from("foo")).unwrap(),
            false,
            500,
            now_timestamp(),
            now_timestamp(),
        ),
        1,
    );

    let result = BankAccountAggregate::handle_command(
        &aggregate,
        BankAccountCommand::Withdraw {
            bank_account_id: bank_account_id.clone(),
            withdraw: 300,
        },
    );
    assert!(result.is_ok());

    let events = result.unwrap();
    assert_eq!(events.len(), 1);

    let result = BankAccountAggregate::apply_event(&aggregate, events[0].clone());
    let aggregate = result.unwrap();
    assert!(aggregate.state().is_some());

    let ba = aggregate.state().as_ref().unwrap();
    assert_eq!(ba.id().to_string(), "67e55044-10b1-426f-9247-bb680e5fe0c8");
    assert_eq!(ba.name().value(), "foo");
    assert_eq!(ba.is_closed(), false);
    assert_eq!(ba.balance(), 200);
}

#[test]
fn test_aggregate_handle_close_bank_account_command() {
    let bank_account_id =
        BankAccountId::new(String::from("67e55044-10b1-426f-9247-bb680e5fe0c8")).unwrap();

    let aggregate = BankAccountAggregate::load(
        BankAccount::new(
            bank_account_id.clone(),
            BankAccountName::new(String::from("foo")).unwrap(),
            false,
            0,
            now_timestamp(),
            now_timestamp(),
        ),
        1,
    );

    let result = BankAccountAggregate::handle_command(
        &aggregate,
        BankAccountCommand::Close {
            bank_account_id: bank_account_id.clone(),
        },
    );
    assert!(result.is_ok());

    let events = result.unwrap();
    assert_eq!(events.len(), 1);

    let result = BankAccountAggregate::apply_event(&aggregate, events[0].clone());
    let aggregate = result.unwrap();
    assert!(aggregate.state().is_some());

    let ba = aggregate.state().as_ref().unwrap();
    assert_eq!(ba.id().to_string(), "67e55044-10b1-426f-9247-bb680e5fe0c8");
    assert_eq!(ba.name().value(), "foo");
    assert_eq!(ba.is_closed(), true);
    assert_eq!(ba.balance(), 0);
}

#[test]
fn test_aggregate_events_not_yet_opened() {
    let aggregate = BankAccountAggregate::new();
    let bank_account_id =
        BankAccountId::new(String::from("67e55044-10b1-426f-9247-bb680e5fe0c8")).unwrap();

    // A mutation event on a not-yet-opened aggregate is refused.
    let event = cqrses_bankaccount::aggregate::BankAccountEvent::Deposited {
        bank_account_id: bank_account_id.clone(),
        deposit: 5,
        occurred_at: now_timestamp(),
    };
    match BankAccountAggregate::apply_event(&aggregate, event) {
        Err(err) => match err.kind() {
            ErrorKind::NotYetOpened => assert!(true),
            _ => assert!(false),
        },
        _ => assert!(false),
    };

    // A second open on an opened aggregate is refused.
    let opened = cqrses_bankaccount::aggregate::BankAccountEvent::Opened {
        bank_account_id: bank_account_id.clone(),
        name: BankAccountName::new(String::from("foo")).unwrap(),
        occurred_at: now_timestamp(),
    };
    let aggregate = BankAccountAggregate::apply_event(&aggregate, opened.clone()).unwrap();
    match BankAccountAggregate::apply_event(&aggregate, opened) {
        Err(err) => match err.kind() {
            ErrorKind::AlreadyOpened(_) => assert!(true),
            _ => assert!(false),
        },
        _ => assert!(false),
    };
}
