//! The projector: derives one read-model record per account from the
//! published event stream. The record transitions are pure functions with
//! exact contracts; the projector wires them to a storage port.

use vstd::prelude::*;

use crate::aggregate::{
    BankAccountEvent, BankAccountEventV, BankAccountId, BankAccountName, Error, ErrorKind, ErrorV,
};
use crate::dao::{BankAccountDao, BankAccountRM, BankAccountRMV};
use crate::clock::Timestamp;

verus! {

/// A version counter that sticks at the top instead of wrapping.
pub open spec fn spec_next_version(v: u64) -> u64 {
    if v < u64::MAX {
        (v + 1) as u64
    } else {
        v
    }
}

/// The record of a newly opened account: zero balance, open, at version 1.
pub open spec fn spec_opened_record(
    bank_account_id: Seq<char>,
    name: Seq<char>,
    occurred_at: i64,
) -> BankAccountRMV {
    BankAccountRMV {
        bank_account_id,
        name,
        is_closed: false,
        balance: 0,
        created_at: occurred_at,
        updated_at: occurred_at,
        version: 1,
    }
}

/// How one event moves a read-model record: the event's field change, the
/// update time, and the next record version. A balance move that would
/// leave the representable non-negative range is refused.
pub open spec fn spec_project_record(rm: BankAccountRMV, event: BankAccountEventV) -> Result<
    BankAccountRMV,
    ErrorV,
> {
    match event {
        BankAccountEventV::Opened { bank_account_id, name, occurred_at } => Ok(
            spec_opened_record(bank_account_id, name, occurred_at),
        ),
        BankAccountEventV::Updated { name, occurred_at, .. } => Ok(
            BankAccountRMV {
                name,
                updated_at: occurred_at,
                version: spec_next_version(rm.version),
                ..rm
            },
        ),
        BankAccountEventV::Deposited { bank_account_id, deposit, occurred_at } => if 0
            <= rm.balance + deposit <= i32::MAX {
            Ok(
                BankAccountRMV {
                    balance: (rm.balance + deposit) as i32,
                    updated_at: occurred_at,
                    version: spec_next_version(rm.version),
                    ..rm
                },
            )
        } else {
            Err(ErrorV::NegativeBalance(bank_account_id, deposit))
        },
        BankAccountEventV::Withdrawn { bank_account_id, withdraw, occurred_at } => if 0
            <= rm.balance - withdraw <= i32::MAX {
            Ok(
                BankAccountRMV {
                    balance: (rm.balance - withdraw) as i32,
                    updated_at: occurred_at,
                    version: spec_next_version(rm.version),
                    ..rm
                },
            )
        } else {
            Err(ErrorV::NegativeBalance(bank_account_id, withdraw))
        },
        BankAccountEventV::Closed { occurred_at, .. } => Ok(
            BankAccountRMV {
                is_closed: true,
                updated_at: occurred_at,
                version: spec_next_version(rm.version),
                ..rm
            },
        ),
    }
}

/// View of a record result, for stating contracts.
pub open spec fn record_result_view(r: Result<BankAccountRM, Error>) -> Result<
    BankAccountRMV,
    ErrorV,
> {
    match r {
        Ok(rm) => Ok(rm@),
        Err(e) => Err(e@),
    }
}

/// Builds the record of a newly opened account.
pub fn opened_record(
    bank_account_id: &BankAccountId,
    name: &BankAccountName,
    occurred_at: Timestamp,
) -> (r: BankAccountRM)
    ensures
        r@ == spec_opened_record(bank_account_id@, name@, occurred_at.millis),
{
    BankAccountRM {
        bank_account_id: bank_account_id.to_string(),
        name: name.to_string(),
        is_closed: false,
        balance: 0,
        created_at: occurred_at,
        updated_at: occurred_at,
        version: 1,
    }
}

/// Applies one event to a read-model record.
pub fn apply_event_to_record(record: BankAccountRM, event: &BankAccountEvent) -> (r: Result<
    BankAccountRM,
    Error,
>)
    ensures
        record_result_view(r) == spec_project_record(record@, event@),
{
    match event {
        BankAccountEvent::Opened { bank_account_id, name, occurred_at } => Ok(
            opened_record(bank_account_id, name, *occurred_at),
        ),
        BankAccountEvent::Updated { name, occurred_at, .. } => {
            let mut record = record;
            record.name = name.to_string();
            record.updated_at = *occurred_at;
            record.version = next_version(record.version);
            Ok(record)
        },
        BankAccountEvent::Deposited { bank_account_id, deposit, occurred_at } => {
            let sum: i64 = (record.balance as i64) + (*deposit as i64);
            if sum < 0 || sum > (i32::MAX as i64) {
                Err(Error::new(ErrorKind::NegativeBalance(bank_account_id.clone(), *deposit)))
            } else {
                let mut record = record;
                record.balance = sum as i32;
                record.updated_at = *occurred_at;
                record.version = next_version(record.version);
                Ok(record)
            }
        },
        BankAccountEvent::Withdrawn { bank_account_id, withdraw, occurred_at } => {
            let diff: i64 = (record.balance as i64) - (*withdraw as i64);
            if diff < 0 || diff > (i32::MAX as i64) {
                Err(Error::new(ErrorKind::NegativeBalance(bank_account_id.clone(), *withdraw)))
            } else {
                let mut record = record;
                record.balance = diff as i32;
                record.updated_at = *occurred_at;
                record.version = next_version(record.version);
                Ok(record)
            }
        },
        BankAccountEvent::Closed { occurred_at, .. } => {
            let mut record = record;
            record.is_closed = true;
            record.updated_at = *occurred_at;
            record.version = next_version(record.version);
            Ok(record)
        },
    }
}

fn next_version(v: u64) -> (r: u64)
    ensures
        r == spec_next_version(v),
{
    if v < u64::MAX {
        v + 1
    } else {
        v
    }
}

/// Maintains the read model from published events through a storage port.
pub struct BankAccountProjector<D: BankAccountDao> {
    dao: D,
}

impl<D: BankAccountDao> BankAccountProjector<D> {
    pub fn new(dao: D) -> Self {
        Self { dao }
    }

    /// Projects one event: an `Opened` event creates the record; any other
    /// event finds, moves, and rewrites it. A mutation event for an account
    /// without a record reports it as not yet opened.
    pub fn project(&self, event: BankAccountEvent) -> (r: Result<(), Error>)
        ensures
            event@ is Opened ==> r is Ok,
            r matches Err(e) ==> (e@ is NotYetOpened || e@ is NegativeBalance),
    {
        match &event {
            BankAccountEvent::Opened { bank_account_id, name, occurred_at } => {
                self.dao.insert(opened_record(bank_account_id, name, *occurred_at));
                Ok(())
            },
            _ => {
                let id_text = event.bank_account_id().to_string();
                match self.dao.find(id_text) {
                    Option::None => Err(Error::new(ErrorKind::NotYetOpened)),
                    Option::Some(record) => match apply_event_to_record(record, &event) {
                        Ok(moved) => {
                            self.dao.update(moved);
                            Ok(())
                        },
                        Err(e) => Err(e),
                    },
                }
            },
        }
    }
}

} // verus!
