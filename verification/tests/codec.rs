use cqrses_bankaccount::aggregate::{BankAccountEvent, BankAccountId, BankAccountName};
use cqrses_bankaccount::clock::Timestamp;
use cqrses_bankaccount::codec::{decode_event, encode_event};

fn account_id() -> BankAccountId {
    BankAccountId::new(String::from("67e55044-10b1-426f-9247-bb680e5fe0c8")).unwrap()
}

fn sample_events() -> Vec<BankAccountEvent> {
    vec![
        BankAccountEvent::Opened {
            bank_account_id: account_id(),
            name: BankAccountName::new(String::from("foo")).unwrap(),
            occurred_at: Timestamp::new(1_600_000_000_123),
        },
        BankAccountEvent::Updated {
            bank_account_id: account_id(),
            name: BankAccountName::new(String::from("bar")).unwrap(),
            occurred_at: Timestamp::new(-42),
        },
        BankAccountEvent::Deposited {
            bank_account_id: account_id(),
            deposit: 500,
            occurred_at: Timestamp::new(0),
        },
        BankAccountEvent::Withdrawn {
            bank_account_id: account_id(),
            withdraw: -300,
            occurred_at: Timestamp::new(i64::MAX),
        },
        BankAccountEvent::Closed {
            bank_account_id: account_id(),
            occurred_at: Timestamp::new(i64::MIN),
        },
    ]
}

#[test]
fn test_event_round_trip_every_variant() {
    for event in sample_events() {
        let body = encode_event(&event);
        let back = decode_event(body.as_str());
        assert_eq!(back, Some(event));
    }
}

#[test]
fn test_event_round_trip_awkward_name() {
    let name = String::from("a \"quoted\" \\ backslash\nand tab\t name");
    let event = BankAccountEvent::Updated {
        bank_account_id: account_id(),
        name: BankAccountName::new(name).unwrap(),
        occurred_at: Timestamp::new(7),
    };
    let body = encode_event(&event);
    let back = decode_event(body.as_str());
    assert_eq!(back, Some(event));
}

#[test]
fn test_encoded_body_exact_shape() {
    let event = BankAccountEvent::Opened {
        bank_account_id: account_id(),
        name: BankAccountName::new(String::from("foo")).unwrap(),
        occurred_at: Timestamp::new(1234),
    };
    assert_eq!(
        encode_event(&event),
        "{\"Opened\":{\"bank_account_id\":\"67e55044-10b1-426f-9247-bb680e5fe0c8\",\"name\":\"foo\",\"occurred_at\":1234}}"
    );

    let event = BankAccountEvent::Withdrawn {
        bank_account_id: account_id(),
        withdraw: 300,
        occurred_at: Timestamp::new(-5),
    };
    assert_eq!(
        encode_event(&event),
        "{\"Withdrawn\":{\"bank_account_id\":\"67e55044-10b1-426f-9247-bb680e5fe0c8\",\"withdraw\":300,\"occurred_at\":-5}}"
    );
}

#[test]
fn test_encoded_body_is_json() {
    for event in sample_events() {
        let body = encode_event(&event);
        let value: serde_json::Value = serde_json::from_str(body.as_str()).unwrap();
        let (tag, inner) = value.as_object().unwrap().iter().next().unwrap();
        assert!(
            ["Opened", "Updated", "Deposited", "Withdrawn", "Closed"].contains(&tag.as_str())
        );
        assert_eq!(
            inner.get("bank_account_id").unwrap().as_str().unwrap(),
            "67e55044-10b1-426f-9247-bb680e5fe0c8"
        );
        assert!(inner.get("occurred_at").unwrap().is_i64());
    }
}

#[test]
fn test_encoded_json_escapes_match_serde() {
    let name = String::from("a \"quoted\" \\ backslash\nand tab\t name");
    let event = BankAccountEvent::Updated {
        bank_account_id: account_id(),
        name: BankAccountName::new(name.clone()).unwrap(),
        occurred_at: Timestamp::new(7),
    };
    let body = encode_event(&event);
    let value: serde_json::Value = serde_json::from_str(body.as_str()).unwrap();
    let inner = value.as_object().unwrap().get("Updated").unwrap();
    assert_eq!(inner.get("name").unwrap().as_str().unwrap(), name);
}

#[test]
fn test_decode_rejects_malformed_bodies() {
    assert_eq!(decode_event(""), None);
    assert_eq!(decode_event("{}"), None);
    assert_eq!(decode_event("{\"Opened\":{}}"), None);
    // Wrong tag.
    assert_eq!(
        decode_event(
            "{\"Reopened\":{\"bank_account_id\":\"67e55044-10b1-426f-9247-bb680e5fe0c8\",\"name\":\"foo\",\"occurred_at\":1}}"
        ),
        None
    );
    // Invalid account id text.
    assert_eq!(
        decode_event("{\"Closed\":{\"bank_account_id\":\"!\",\"occurred_at\":1}}"),
        None
    );
    // Amount outside the 32-bit range.
    assert_eq!(
        decode_event(
            "{\"Deposited\":{\"bank_account_id\":\"67e55044-10b1-426f-9247-bb680e5fe0c8\",\"deposit\":3000000000,\"occurred_at\":1}}"
        ),
        None
    );
    // Trailing garbage.
    assert_eq!(
        decode_event(
            "{\"Closed\":{\"bank_account_id\":\"67e55044-10b1-426f-9247-bb680e5fe0c8\",\"occurred_at\":1}}x"
        ),
        None
    );
}

#[test]
fn test_decode_accepts_serde_shaped_bodies() {
    let body = "{\"Deposited\":{\"bank_account_id\":\"67e55044-10b1-426f-9247-bb680e5fe0c8\",\"deposit\":500,\"occurred_at\":99}}";
    let event = decode_event(body).unwrap();
    match event {
        BankAccountEvent::Deposited {
            bank_account_id,
            deposit,
            occurred_at,
        } => {
            assert_eq!(
                bank_account_id.to_string(),
                "67e55044-10b1-426f-9247-bb680e5fe0c8"
            );
            assert_eq!(deposit, 500);
            assert_eq!(occurred_at.millis(), 99);
        }
        _ => assert!(false),
    }
}
