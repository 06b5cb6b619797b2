//! The read-model record and the storage port the projector writes through.

use vstd::prelude::*;

use crate::clock::Timestamp;

verus! {

/// Mathematical model of a read-model record.
pub struct BankAccountRMV {
    pub bank_account_id: Seq<char>,
    pub name: Seq<char>,
    pub is_closed: bool,
    pub balance: i32,
    pub created_at: i64,
    pub updated_at: i64,
    pub version: u64,
}

/// One account's read-model record.
#[derive(Debug)]
pub struct BankAccountRM {
    pub bank_account_id: String,
    pub name: String,
    pub is_closed: bool,
    pub balance: i32,
    pub created_at: Timestamp,
    pub updated_at: Timestamp,
    pub version: u64,
}

impl View for BankAccountRM {
    type V = BankAccountRMV;

    open spec fn view(&self) -> BankAccountRMV {
        BankAccountRMV {
            bank_account_id: self.bank_account_id@,
            name: self.name@,
            is_closed: self.is_closed,
            balance: self.balance,
            created_at: self.created_at.millis,
            updated_at: self.updated_at.millis,
            version: self.version,
        }
    }
}

impl Clone for BankAccountRM {
    fn clone(&self) -> (r: Self)
        ensures
            r == *self,
    {
        Self {
            bank_account_id: self.bank_account_id.clone(),
            name: self.name.clone(),
            is_closed: self.is_closed,
            balance: self.balance,
            created_at: self.created_at,
            updated_at: self.updated_at,
            version: self.version,
        }
    }
}

/// The storage port for read-model records, implemented by whatever backs
/// the read side. Nothing is promised of an implementation here; the pure
/// record transitions in the projector carry the exact contracts.
pub trait BankAccountDao {
    /// The record of the account, when one exists.
    fn find(&self, bank_account_id: String) -> Option<BankAccountRM>;

    /// Creates the record of a newly opened account.
    fn insert(&self, model: BankAccountRM);

    /// Replaces the record of an existing account.
    fn update(&self, model: BankAccountRM);
}

} // verus!
