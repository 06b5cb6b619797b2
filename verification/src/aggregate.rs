//! The bank-account domain: value objects, errors, events, commands, and the
//! pure aggregate state machine.
//!
//! All legality rules live in the event application function, so that loading
//! an aggregate from history enforces exactly the same rules as handling a
//! command online. Command handling only decides which event to emit.

use vstd::prelude::*;

use crate::clock::Timestamp;
use crate::eventsourcing::Snapshot;
use crate::text::{chars_to_string, str_to_chars};
use vstd::pervasive::unreached;
use vstd::string::StringExecFns;

verus! {

// ---------------------------------------------------------------------------
// Errors
// ---------------------------------------------------------------------------

/// Mathematical model of a domain error.
pub enum ErrorV {
    InvalidBankAccountId(Seq<char>),
    InvalidBankAccountName(Seq<char>),
    NotYetOpened,
    AlreadyOpened(Seq<char>),
    AlreadyClosed(Seq<char>),
    DepositZero(Seq<char>, i32),
    NegativeBalance(Seq<char>, i32),
    InvalidState(Seq<char>),
}

/// The domain error taxonomy.
#[derive(Debug)]
pub enum ErrorKind {
    /// The given text is not a canonical hyphenated account id.
    InvalidBankAccountId(String),
    /// The given name is empty or 255 or more bytes long.
    InvalidBankAccountName(String),
    /// The event needs an opened account and none exists yet.
    NotYetOpened,
    /// An open was attempted while a state already exists.
    AlreadyOpened(BankAccountId),
    /// The account was closed before this event.
    AlreadyClosed(BankAccountId),
    /// A deposit or withdrawal of zero.
    DepositZero(BankAccountId, i32),
    /// The balance would leave the representable non-negative range.
    NegativeBalance(BankAccountId, i32),
    /// The command names an account other than the loaded one.
    InvalidState(BankAccountId),
}

impl View for ErrorKind {
    type V = ErrorV;

    open spec fn view(&self) -> ErrorV {
        match self {
            ErrorKind::InvalidBankAccountId(s) => ErrorV::InvalidBankAccountId(s@),
            ErrorKind::InvalidBankAccountName(s) => ErrorV::InvalidBankAccountName(s@),
            ErrorKind::NotYetOpened => ErrorV::NotYetOpened,
            ErrorKind::AlreadyOpened(id) => ErrorV::AlreadyOpened(id@),
            ErrorKind::AlreadyClosed(id) => ErrorV::AlreadyClosed(id@),
            ErrorKind::DepositZero(id, n) => ErrorV::DepositZero(id@, *n),
            ErrorKind::NegativeBalance(id, n) => ErrorV::NegativeBalance(id@, *n),
            ErrorKind::InvalidState(id) => ErrorV::InvalidState(id@),
        }
    }
}

/// A domain error, carrying its kind.
#[derive(Debug)]
pub struct Error {
    kind: ErrorKind,
}

impl View for Error {
    type V = ErrorV;

    closed spec fn view(&self) -> ErrorV {
        self.kind@
    }
}

impl Error {
    pub fn new(kind: ErrorKind) -> (r: Self)
        ensures
            r@ == kind@,
    {
        Self { kind }
    }

    pub fn kind(&self) -> (r: &ErrorKind)
        ensures
            r@ == self@,
    {
        &self.kind
    }

    /// The error's kind, by value.
    pub fn into_kind(self) -> (r: ErrorKind)
        ensures
            r@ == self@,
    {
        self.kind
    }
}

// ---------------------------------------------------------------------------
// BankAccountId
// ---------------------------------------------------------------------------

pub open spec fn is_hex_digit(c: char) -> bool {
    ('0' <= c && c <= '9') || ('a' <= c && c <= 'f') || ('A' <= c && c <= 'F')
}

pub open spec fn is_lower_hex_digit(c: char) -> bool {
    ('0' <= c && c <= '9') || ('a' <= c && c <= 'f')
}

pub open spec fn to_lower_hex(c: char) -> char {
    match c {
        'A' => 'a',
        'B' => 'b',
        'C' => 'c',
        'D' => 'd',
        'E' => 'e',
        'F' => 'f',
        _ => c,
    }
}

pub open spec fn uuid_hyphen_pos(i: int) -> bool {
    i == 8 || i == 13 || i == 18 || i == 23
}

/// Text that parses as an account id: canonical hyphenated form, either case.
pub open spec fn uuid_text_acceptable(s: Seq<char>) -> bool {
    &&& s.len() == 36
    &&& forall|i: int|
        0 <= i < 36 ==> (if uuid_hyphen_pos(i) {
            s[i] == '-'
        } else {
            is_hex_digit(#[trigger] s[i])
        })
}

/// The canonical (lower-case) form of acceptable id text.
pub open spec fn canon_uuid(s: Seq<char>) -> Seq<char> {
    s.map_values(|c: char| to_lower_hex(c))
}

/// The canonical hyphenated form every stored account id is kept in.
pub open spec fn valid_uuid_chars(s: Seq<char>) -> bool {
    &&& s.len() == 36
    &&& forall|i: int|
        0 <= i < 36 ==> (if uuid_hyphen_pos(i) {
            s[i] == '-'
        } else {
            is_lower_hex_digit(#[trigger] s[i])
        })
}

/// A validated account identifier in canonical hyphenated form.
#[derive(Debug, PartialEq, Eq)]
pub struct BankAccountId {
    value: String,
}

impl View for BankAccountId {
    type V = Seq<char>;

    closed spec fn view(&self) -> Seq<char> {
        self.value@
    }
}

impl Clone for BankAccountId {
    fn clone(&self) -> (r: Self)
        ensures
            r == *self,
    {
        proof {
            use_type_invariant(self);
        }
        Self { value: self.value.clone() }
    }
}

fn is_hex_digit_exec(c: char) -> (r: bool)
    ensures
        r == is_hex_digit(c),
{
    ('0' <= c && c <= '9') || ('a' <= c && c <= 'f') || ('A' <= c && c <= 'F')
}

fn to_lower_hex_exec(c: char) -> (r: char)
    ensures
        r == to_lower_hex(c),
{
    match c {
        'A' => 'a',
        'B' => 'b',
        'C' => 'c',
        'D' => 'd',
        'E' => 'e',
        'F' => 'f',
        _ => c,
    }
}

impl BankAccountId {
    #[verifier::type_invariant]
    spec fn type_inv(self) -> bool {
        valid_uuid_chars(self.value@)
    }

    /// Parses the canonical hyphenated text form, normalizing hex digits to
    /// lower case; any other text is rejected.
    pub fn new(value: String) -> (r: Result<Self, Error>)
        ensures
            r is Ok <==> uuid_text_acceptable(value@),
            r matches Ok(id) ==> id@ == canon_uuid(value@),
            r matches Err(e) ==> e@ == ErrorV::InvalidBankAccountId(value@),
    {
        let chars = str_to_chars(value.as_str());
        if chars.len() != 36 {
            return Err(Error::new(ErrorKind::InvalidBankAccountId(value)));
        }
        let mut out: Vec<char> = Vec::new();
        let mut i: usize = 0;
        while i < 36
            invariant
                chars@ == value@,
                chars@.len() == 36,
                i <= 36,
                out@.len() == i,
                forall|j: int|
                    0 <= j < i ==> (if uuid_hyphen_pos(j) {
                        value@[j] == '-'
                    } else {
                        is_hex_digit(#[trigger] value@[j])
                    }),
                forall|j: int| 0 <= j < i ==> #[trigger] out@[j] == to_lower_hex(value@[j]),
            decreases 36 - i,
        {
            let c = chars[i];
            if i == 8 || i == 13 || i == 18 || i == 23 {
                if c != '-' {
                    return Err(Error::new(ErrorKind::InvalidBankAccountId(value)));
                }
                out.push('-');
            } else {
                if !is_hex_digit_exec(c) {
                    return Err(Error::new(ErrorKind::InvalidBankAccountId(value)));
                }
                out.push(to_lower_hex_exec(c));
            }
            i = i + 1;
        }
        let s = chars_to_string(&out);
        proof {
            assert(out@ =~= canon_uuid(value@));
            assert(valid_uuid_chars(s@));
        }
        Ok(Self { value: s })
    }

    /// The canonical hyphenated text of the id.
    pub fn value(&self) -> (r: &str)
        ensures
            r@ == self@,
            valid_uuid_chars(self@),
    {
        proof {
            use_type_invariant(self);
        }
        self.value.as_str()
    }

    /// The canonical hyphenated text of the id, as an owned string.
    pub fn to_string(&self) -> (r: String)
        ensures
            r@ == self@,
            valid_uuid_chars(self@),
    {
        proof {
            use_type_invariant(self);
        }
        self.value.clone()
    }

    /// Wraps text already known to be canonical; for rebuilding an id that
    /// was persisted by this library.
    pub(crate) fn from_canonical(value: String) -> (r: Self)
        requires
            valid_uuid_chars(value@),
        ensures
            r@ == value@,
    {
        Self { value }
    }

    /// Compares two ids by their canonical text.
    pub fn eq_id(&self, other: &BankAccountId) -> (r: bool)
        ensures
            r == (self@ == other@),
    {
        self.value == other.value
    }
}

// ---------------------------------------------------------------------------
// BankAccountName
// ---------------------------------------------------------------------------

/// A name is accepted when it is non-empty and shorter than 255 bytes.
pub open spec fn valid_name(s: Seq<char>) -> bool {
    s.len() > 0 && vstd::utf8::encode_utf8(s).len() < 255
}

/// A validated account holder name.
#[derive(Debug, PartialEq, Eq)]
pub struct BankAccountName {
    value: String,
}

impl View for BankAccountName {
    type V = Seq<char>;

    closed spec fn view(&self) -> Seq<char> {
        self.value@
    }
}

impl Clone for BankAccountName {
    fn clone(&self) -> (r: Self)
        ensures
            r == *self,
    {
        Self { value: self.value.clone() }
    }
}

impl BankAccountName {
    /// Accepts exactly the non-empty names shorter than 255 bytes.
    pub fn new(value: String) -> (r: Result<Self, Error>)
        ensures
            r is Ok <==> valid_name(value@),
            r matches Ok(n) ==> n@ == value@,
            r matches Err(e) ==> e@ == ErrorV::InvalidBankAccountName(value@),
    {
        if !value.as_str().is_empty() && value.as_str().as_bytes().len() < 255 {
            Ok(Self { value })
        } else {
            Err(Error::new(ErrorKind::InvalidBankAccountName(value)))
        }
    }

    pub fn value(&self) -> (r: &str)
        ensures
            r@ == self@,
    {
        self.value.as_str()
    }

    /// Wraps text that was persisted as a name, without revalidating it.
    pub(crate) fn from_raw(value: String) -> (r: Self)
        ensures
            r@ == value@,
    {
        Self { value }
    }

    /// The name as an owned string.
    pub fn to_string(&self) -> (r: String)
        ensures
            r@ == self@,
    {
        self.value.clone()
    }
}

// ---------------------------------------------------------------------------
// Events and commands
// ---------------------------------------------------------------------------

/// Mathematical model of a domain event.
pub enum BankAccountEventV {
    Opened { bank_account_id: Seq<char>, name: Seq<char>, occurred_at: i64 },
    Updated { bank_account_id: Seq<char>, name: Seq<char>, occurred_at: i64 },
    Deposited { bank_account_id: Seq<char>, deposit: i32, occurred_at: i64 },
    Withdrawn { bank_account_id: Seq<char>, withdraw: i32, occurred_at: i64 },
    Closed { bank_account_id: Seq<char>, occurred_at: i64 },
}

/// An immutable fact recording that a state change occurred.
#[derive(Debug, PartialEq, Eq)]
pub enum BankAccountEvent {
    Opened { bank_account_id: BankAccountId, name: BankAccountName, occurred_at: Timestamp },
    Updated { bank_account_id: BankAccountId, name: BankAccountName, occurred_at: Timestamp },
    Deposited { bank_account_id: BankAccountId, deposit: i32, occurred_at: Timestamp },
    Withdrawn { bank_account_id: BankAccountId, withdraw: i32, occurred_at: Timestamp },
    Closed { bank_account_id: BankAccountId, occurred_at: Timestamp },
}

impl View for BankAccountEvent {
    type V = BankAccountEventV;

    open spec fn view(&self) -> BankAccountEventV {
        match self {
            BankAccountEvent::Opened { bank_account_id, name, occurred_at } => BankAccountEventV::Opened {
                bank_account_id: bank_account_id@,
                name: name@,
                occurred_at: occurred_at.millis,
            },
            BankAccountEvent::Updated { bank_account_id, name, occurred_at } => BankAccountEventV::Updated {
                bank_account_id: bank_account_id@,
                name: name@,
                occurred_at: occurred_at.millis,
            },
            BankAccountEvent::Deposited { bank_account_id, deposit, occurred_at } => BankAccountEventV::Deposited {
                bank_account_id: bank_account_id@,
                deposit: *deposit,
                occurred_at: occurred_at.millis,
            },
            BankAccountEvent::Withdrawn { bank_account_id, withdraw, occurred_at } => BankAccountEventV::Withdrawn {
                bank_account_id: bank_account_id@,
                withdraw: *withdraw,
                occurred_at: occurred_at.millis,
            },
            BankAccountEvent::Closed { bank_account_id, occurred_at } => BankAccountEventV::Closed {
                bank_account_id: bank_account_id@,
                occurred_at: occurred_at.millis,
            },
        }
    }
}

impl Clone for BankAccountEvent {
    fn clone(&self) -> (r: Self)
        ensures
            r == *self,
    {
        match self {
            BankAccountEvent::Opened { bank_account_id, name, occurred_at } => BankAccountEvent::Opened {
                bank_account_id: bank_account_id.clone(),
                name: name.clone(),
                occurred_at: *occurred_at,
            },
            BankAccountEvent::Updated { bank_account_id, name, occurred_at } => BankAccountEvent::Updated {
                bank_account_id: bank_account_id.clone(),
                name: name.clone(),
                occurred_at: *occurred_at,
            },
            BankAccountEvent::Deposited { bank_account_id, deposit, occurred_at } => BankAccountEvent::Deposited {
                bank_account_id: bank_account_id.clone(),
                deposit: *deposit,
                occurred_at: *occurred_at,
            },
            BankAccountEvent::Withdrawn { bank_account_id, withdraw, occurred_at } => BankAccountEvent::Withdrawn {
                bank_account_id: bank_account_id.clone(),
                withdraw: *withdraw,
                occurred_at: *occurred_at,
            },
            BankAccountEvent::Closed { bank_account_id, occurred_at } => BankAccountEvent::Closed {
                bank_account_id: bank_account_id.clone(),
                occurred_at: *occurred_at,
            },
        }
    }
}

/// The stable string tag of an event model.
pub open spec fn spec_event_type(e: BankAccountEventV) -> Seq<char> {
    match e {
        BankAccountEventV::Opened { .. } => "BankAccountOpened"@,
        BankAccountEventV::Updated { .. } => "BankAccountUpdated"@,
        BankAccountEventV::Deposited { .. } => "BankAccountDeposited"@,
        BankAccountEventV::Withdrawn { .. } => "BankAccountWithdrawn"@,
        BankAccountEventV::Closed { .. } => "BankAccountClosed"@,
    }
}

/// When an event model occurred.
pub open spec fn spec_event_occurred_at(e: BankAccountEventV) -> i64 {
    match e {
        BankAccountEventV::Opened { occurred_at, .. } => occurred_at,
        BankAccountEventV::Updated { occurred_at, .. } => occurred_at,
        BankAccountEventV::Deposited { occurred_at, .. } => occurred_at,
        BankAccountEventV::Withdrawn { occurred_at, .. } => occurred_at,
        BankAccountEventV::Closed { occurred_at, .. } => occurred_at,
    }
}

/// A structurally well-formed event model: its account id is canonical.
pub open spec fn event_v_wf(e: BankAccountEventV) -> bool {
    valid_uuid_chars(spec_event_account_id(e))
}

/// Which account an event model belongs to.
pub open spec fn spec_event_account_id(e: BankAccountEventV) -> Seq<char> {
    match e {
        BankAccountEventV::Opened { bank_account_id, .. } => bank_account_id,
        BankAccountEventV::Updated { bank_account_id, .. } => bank_account_id,
        BankAccountEventV::Deposited { bank_account_id, .. } => bank_account_id,
        BankAccountEventV::Withdrawn { bank_account_id, .. } => bank_account_id,
        BankAccountEventV::Closed { bank_account_id, .. } => bank_account_id,
    }
}

impl BankAccountEvent {
    /// The stable string tag used for persisted type discrimination.
    pub fn event_type(&self) -> (r: &str)
        ensures
            r@ == spec_event_type(self@),
    {
        match self {
            BankAccountEvent::Opened { .. } => "BankAccountOpened",
            BankAccountEvent::Updated { .. } => "BankAccountUpdated",
            BankAccountEvent::Deposited { .. } => "BankAccountDeposited",
            BankAccountEvent::Withdrawn { .. } => "BankAccountWithdrawn",
            BankAccountEvent::Closed { .. } => "BankAccountClosed",
        }
    }

    /// The account the event belongs to.
    pub fn bank_account_id(&self) -> (r: &BankAccountId)
        ensures
            r@ == spec_event_account_id(self@),
    {
        match self {
            BankAccountEvent::Opened { bank_account_id, .. } => bank_account_id,
            BankAccountEvent::Updated { bank_account_id, .. } => bank_account_id,
            BankAccountEvent::Deposited { bank_account_id, .. } => bank_account_id,
            BankAccountEvent::Withdrawn { bank_account_id, .. } => bank_account_id,
            BankAccountEvent::Closed { bank_account_id, .. } => bank_account_id,
        }
    }

    pub fn occurred_at(&self) -> (r: Timestamp)
        ensures
            r.millis == spec_event_occurred_at(self@),
    {
        match self {
            BankAccountEvent::Opened { occurred_at, .. } => *occurred_at,
            BankAccountEvent::Updated { occurred_at, .. } => *occurred_at,
            BankAccountEvent::Deposited { occurred_at, .. } => *occurred_at,
            BankAccountEvent::Withdrawn { occurred_at, .. } => *occurred_at,
            BankAccountEvent::Closed { occurred_at, .. } => *occurred_at,
        }
    }
}

/// Mathematical model of a command.
pub enum BankAccountCommandV {
    Open { bank_account_id: Seq<char>, name: Seq<char> },
    Update { bank_account_id: Seq<char>, name: Seq<char> },
    Deposit { bank_account_id: Seq<char>, deposit: i32 },
    Withdraw { bank_account_id: Seq<char>, withdraw: i32 },
    Close { bank_account_id: Seq<char> },
}

/// A request to change an account; accepted commands produce events.
#[derive(Debug)]
pub enum BankAccountCommand {
    Open { bank_account_id: BankAccountId, name: BankAccountName },
    Update { bank_account_id: BankAccountId, name: BankAccountName },
    Deposit { bank_account_id: BankAccountId, deposit: i32 },
    Withdraw { bank_account_id: BankAccountId, withdraw: i32 },
    Close { bank_account_id: BankAccountId },
}

impl View for BankAccountCommand {
    type V = BankAccountCommandV;

    open spec fn view(&self) -> BankAccountCommandV {
        match self {
            BankAccountCommand::Open { bank_account_id, name } => BankAccountCommandV::Open {
                bank_account_id: bank_account_id@,
                name: name@,
            },
            BankAccountCommand::Update { bank_account_id, name } => BankAccountCommandV::Update {
                bank_account_id: bank_account_id@,
                name: name@,
            },
            BankAccountCommand::Deposit { bank_account_id, deposit } => BankAccountCommandV::Deposit {
                bank_account_id: bank_account_id@,
                deposit: *deposit,
            },
            BankAccountCommand::Withdraw { bank_account_id, withdraw } => BankAccountCommandV::Withdraw {
                bank_account_id: bank_account_id@,
                withdraw: *withdraw,
            },
            BankAccountCommand::Close { bank_account_id } => BankAccountCommandV::Close {
                bank_account_id: bank_account_id@,
            },
        }
    }
}

impl Clone for BankAccountCommand {
    fn clone(&self) -> (r: Self)
        ensures
            r == *self,
    {
        match self {
            BankAccountCommand::Open { bank_account_id, name } => BankAccountCommand::Open {
                bank_account_id: bank_account_id.clone(),
                name: name.clone(),
            },
            BankAccountCommand::Update { bank_account_id, name } => BankAccountCommand::Update {
                bank_account_id: bank_account_id.clone(),
                name: name.clone(),
            },
            BankAccountCommand::Deposit { bank_account_id, deposit } => BankAccountCommand::Deposit {
                bank_account_id: bank_account_id.clone(),
                deposit: *deposit,
            },
            BankAccountCommand::Withdraw { bank_account_id, withdraw } => BankAccountCommand::Withdraw {
                bank_account_id: bank_account_id.clone(),
                withdraw: *withdraw,
            },
            BankAccountCommand::Close { bank_account_id } => BankAccountCommand::Close {
                bank_account_id: bank_account_id.clone(),
            },
        }
    }
}

// ---------------------------------------------------------------------------
// BankAccount
// ---------------------------------------------------------------------------

/// Mathematical model of an account's state.
pub struct BankAccountV {
    pub id: Seq<char>,
    pub name: Seq<char>,
    pub is_closed: bool,
    pub balance: i32,
    pub created_at: i64,
    pub updated_at: i64,
}

/// An account's state: identity, name, open/closed flag, and balance.
#[derive(Debug)]
pub struct BankAccount {
    id: BankAccountId,
    name: BankAccountName,
    is_closed: bool,
    balance: i32,
    created_at: Timestamp,
    updated_at: Timestamp,
}

impl View for BankAccount {
    type V = BankAccountV;

    closed spec fn view(&self) -> BankAccountV {
        BankAccountV {
            id: self.id@,
            name: self.name@,
            is_closed: self.is_closed,
            balance: self.balance,
            created_at: self.created_at.millis,
            updated_at: self.updated_at.millis,
        }
    }
}

impl Clone for BankAccount {
    fn clone(&self) -> (r: Self)
        ensures
            r == *self,
    {
        Self {
            id: self.id.clone(),
            name: self.name.clone(),
            is_closed: self.is_closed,
            balance: self.balance,
            created_at: self.created_at,
            updated_at: self.updated_at,
        }
    }
}

/// Renaming an account: refused once it is closed.
pub open spec fn spec_with_name(ba: BankAccountV, name: Seq<char>, at: i64) -> Result<
    BankAccountV,
    ErrorV,
> {
    if ba.is_closed {
        Err(ErrorV::AlreadyClosed(ba.id))
    } else {
        Ok(
            BankAccountV {
                id: ba.id,
                name,
                is_closed: ba.is_closed,
                balance: ba.balance,
                created_at: ba.created_at,
                updated_at: at,
            },
        )
    }
}

/// Depositing: refused on a closed account, for a zero amount, and when the
/// balance would leave the representable non-negative range.
pub open spec fn spec_deposit(ba: BankAccountV, deposit: i32, at: i64) -> Result<
    BankAccountV,
    ErrorV,
> {
    if ba.is_closed {
        Err(ErrorV::AlreadyClosed(ba.id))
    } else if deposit == 0 {
        Err(ErrorV::DepositZero(ba.id, deposit))
    } else if ba.balance + deposit < 0 || ba.balance + deposit > i32::MAX {
        Err(ErrorV::NegativeBalance(ba.id, deposit))
    } else {
        Ok(
            BankAccountV {
                id: ba.id,
                name: ba.name,
                is_closed: ba.is_closed,
                balance: (ba.balance + deposit) as i32,
                created_at: ba.created_at,
                updated_at: at,
            },
        )
    }
}

/// Withdrawing: refused on a closed account, for a zero amount, and when the
/// balance would leave the representable non-negative range.
pub open spec fn spec_withdraw(ba: BankAccountV, withdraw: i32, at: i64) -> Result<
    BankAccountV,
    ErrorV,
> {
    if ba.is_closed {
        Err(ErrorV::AlreadyClosed(ba.id))
    } else if withdraw == 0 {
        Err(ErrorV::DepositZero(ba.id, withdraw))
    } else if ba.balance - withdraw < 0 || ba.balance - withdraw > i32::MAX {
        Err(ErrorV::NegativeBalance(ba.id, withdraw))
    } else {
        Ok(
            BankAccountV {
                id: ba.id,
                name: ba.name,
                is_closed: ba.is_closed,
                balance: (ba.balance - withdraw) as i32,
                created_at: ba.created_at,
                updated_at: at,
            },
        )
    }
}

/// Closing: refused once the account is already closed.
pub open spec fn spec_close(ba: BankAccountV, at: i64) -> Result<BankAccountV, ErrorV> {
    if ba.is_closed {
        Err(ErrorV::AlreadyClosed(ba.id))
    } else {
        Ok(
            BankAccountV {
                id: ba.id,
                name: ba.name,
                is_closed: true,
                balance: ba.balance,
                created_at: ba.created_at,
                updated_at: at,
            },
        )
    }
}

/// View of an account result, for stating contracts.
pub open spec fn account_result_view(r: Result<BankAccount, Error>) -> Result<
    BankAccountV,
    ErrorV,
> {
    match r {
        Ok(b) => Ok(b@),
        Err(e) => Err(e@),
    }
}

impl BankAccount {
    pub fn new(
        id: BankAccountId,
        name: BankAccountName,
        is_closed: bool,
        balance: i32,
        created_at: Timestamp,
        updated_at: Timestamp,
    ) -> (r: Self)
        ensures
            r@ == (BankAccountV {
                id: id@,
                name: name@,
                is_closed,
                balance,
                created_at: created_at.millis,
                updated_at: updated_at.millis,
            }),
    {
        Self { id, name, is_closed, balance, created_at, updated_at }
    }

    pub fn id(&self) -> (r: &BankAccountId)
        ensures
            r@ == self@.id,
    {
        &self.id
    }

    pub fn name(&self) -> (r: &BankAccountName)
        ensures
            r@ == self@.name,
    {
        &self.name
    }

    pub fn is_closed(&self) -> (r: bool)
        ensures
            r == self@.is_closed,
    {
        self.is_closed
    }

    pub fn balance(&self) -> (r: i32)
        ensures
            r == self@.balance,
    {
        self.balance
    }

    pub fn created_at(&self) -> (r: Timestamp)
        ensures
            r.millis == self@.created_at,
    {
        self.created_at
    }

    pub fn updated_at(&self) -> (r: Timestamp)
        ensures
            r.millis == self@.updated_at,
    {
        self.updated_at
    }

    pub fn with_name(&self, name: BankAccountName, occurred_at: Timestamp) -> (r: Result<
        Self,
        Error,
    >)
        ensures
            account_result_view(r) == spec_with_name(self@, name@, occurred_at.millis),
    {
        if self.is_closed {
            Err(Error::new(ErrorKind::AlreadyClosed(self.id.clone())))
        } else {
            Ok(
                Self {
                    id: self.id.clone(),
                    name,
                    is_closed: self.is_closed,
                    balance: self.balance,
                    created_at: self.created_at,
                    updated_at: occurred_at,
                },
            )
        }
    }

    pub fn deposit(&self, deposit: i32, occurred_at: Timestamp) -> (r: Result<Self, Error>)
        ensures
            account_result_view(r) == spec_deposit(self@, deposit, occurred_at.millis),
    {
        if self.is_closed {
            Err(Error::new(ErrorKind::AlreadyClosed(self.id.clone())))
        } else if deposit == 0 {
            Err(Error::new(ErrorKind::DepositZero(self.id.clone(), deposit)))
        } else {
            let sum: i64 = (self.balance as i64) + (deposit as i64);
            if sum < 0 || sum > (i32::MAX as i64) {
                Err(Error::new(ErrorKind::NegativeBalance(self.id.clone(), deposit)))
            } else {
                Ok(
                    Self {
                        id: self.id.clone(),
                        name: self.name.clone(),
                        is_closed: self.is_closed,
                        balance: sum as i32,
                        created_at: self.created_at,
                        updated_at: occurred_at,
                    },
                )
            }
        }
    }

    pub fn withdraw(&self, withdraw: i32, occurred_at: Timestamp) -> (r: Result<Self, Error>)
        ensures
            account_result_view(r) == spec_withdraw(self@, withdraw, occurred_at.millis),
    {
        if self.is_closed {
            Err(Error::new(ErrorKind::AlreadyClosed(self.id.clone())))
        } else if withdraw == 0 {
            Err(Error::new(ErrorKind::DepositZero(self.id.clone(), withdraw)))
        } else {
            let diff: i64 = (self.balance as i64) - (withdraw as i64);
            if diff < 0 || diff > (i32::MAX as i64) {
                Err(Error::new(ErrorKind::NegativeBalance(self.id.clone(), withdraw)))
            } else {
                Ok(
                    Self {
                        id: self.id.clone(),
                        name: self.name.clone(),
                        is_closed: self.is_closed,
                        balance: diff as i32,
                        created_at: self.created_at,
                        updated_at: occurred_at,
                    },
                )
            }
        }
    }

    pub fn close(&self, occurred_at: Timestamp) -> (r: Result<Self, Error>)
        ensures
            account_result_view(r) == spec_close(self@, occurred_at.millis),
    {
        if self.is_closed {
            Err(Error::new(ErrorKind::AlreadyClosed(self.id.clone())))
        } else {
            Ok(
                Self {
                    id: self.id.clone(),
                    name: self.name.clone(),
                    is_closed: true,
                    balance: self.balance,
                    created_at: self.created_at,
                    updated_at: occurred_at,
                },
            )
        }
    }
}

// ---------------------------------------------------------------------------
// The aggregate state machine
// ---------------------------------------------------------------------------

/// Mathematical model of an aggregate.
pub struct BankAccountAggregateV {
    pub state: Option<BankAccountV>,
    pub version: u64,
}

/// Applies one event to an account state, enforcing every legality rule.
pub open spec fn spec_apply_state(
    state: Option<BankAccountV>,
    event: BankAccountEventV,
) -> Result<Option<BankAccountV>, ErrorV> {
    match event {
        BankAccountEventV::Opened { bank_account_id, name, occurred_at } => match state {
            Option::None => Ok(
                Option::Some(
                    BankAccountV {
                        id: bank_account_id,
                        name,
                        is_closed: false,
                        balance: 0,
                        created_at: occurred_at,
                        updated_at: occurred_at,
                    },
                ),
            ),
            Option::Some(_) => Err(ErrorV::AlreadyOpened(bank_account_id)),
        },
        BankAccountEventV::Updated { name, occurred_at, .. } => match state {
            Option::None => Err(ErrorV::NotYetOpened),
            Option::Some(ba) => match spec_with_name(ba, name, occurred_at) {
                Ok(b2) => Ok(Option::Some(b2)),
                Err(e) => Err(e),
            },
        },
        BankAccountEventV::Deposited { deposit, occurred_at, .. } => match state {
            Option::None => Err(ErrorV::NotYetOpened),
            Option::Some(ba) => match spec_deposit(ba, deposit, occurred_at) {
                Ok(b2) => Ok(Option::Some(b2)),
                Err(e) => Err(e),
            },
        },
        BankAccountEventV::Withdrawn { withdraw, occurred_at, .. } => match state {
            Option::None => Err(ErrorV::NotYetOpened),
            Option::Some(ba) => match spec_withdraw(ba, withdraw, occurred_at) {
                Ok(b2) => Ok(Option::Some(b2)),
                Err(e) => Err(e),
            },
        },
        BankAccountEventV::Closed { occurred_at, .. } => match state {
            Option::None => Err(ErrorV::NotYetOpened),
            Option::Some(ba) => match spec_close(ba, occurred_at) {
                Ok(b2) => Ok(Option::Some(b2)),
                Err(e) => Err(e),
            },
        },
    }
}

/// Applies one event to an aggregate; the version is left to the load and
/// append paths.
pub open spec fn spec_apply_event(
    agg: BankAccountAggregateV,
    event: BankAccountEventV,
) -> Result<BankAccountAggregateV, ErrorV> {
    match spec_apply_state(agg.state, event) {
        Ok(s) => Ok(BankAccountAggregateV { state: s, version: agg.version }),
        Err(e) => Err(e),
    }
}

/// Folds events over an aggregate, stopping at the first failure.
pub open spec fn spec_fold_events(
    agg: BankAccountAggregateV,
    events: Seq<BankAccountEventV>,
) -> Result<BankAccountAggregateV, ErrorV>
    decreases events.len(),
{
    if events.len() == 0 {
        Ok(agg)
    } else {
        match spec_apply_event(agg, events[0]) {
            Ok(a2) => spec_fold_events(a2, events.skip(1)),
            Err(e) => Err(e),
        }
    }
}

/// Folding from a point in the middle: the fold of a whole sequence is the
/// fold of a prefix continued over the rest.
pub proof fn lemma_fold_events_split(
    agg: BankAccountAggregateV,
    events: Seq<BankAccountEventV>,
    i: int,
)
    requires
        0 <= i <= events.len(),
    ensures
        spec_fold_events(agg, events) == (match spec_fold_events(agg, events.take(i)) {
            Ok(mid) => spec_fold_events(mid, events.skip(i)),
            Err(e) => Err(e),
        }),
    decreases i,
{
    if i == 0 {
        assert(events.take(0) =~= Seq::<BankAccountEventV>::empty());
        assert(events.skip(0) =~= events);
    } else {
        assert(events.len() > 0);
        assert(events.take(i)[0] == events[0]);
        match spec_apply_event(agg, events[0]) {
            Ok(a2) => {
                assert(events.take(i).skip(1) =~= events.skip(1).take(i - 1));
                lemma_fold_events_split(a2, events.skip(1), i - 1);
                assert(events.skip(1).skip(i - 1) =~= events.skip(i));
            },
            Err(e) => {},
        }
    }
}

/// Whether the aggregate holds the account the command names.
pub open spec fn spec_equals_id(agg: BankAccountAggregateV, id: Seq<char>) -> bool {
    match agg.state {
        Option::Some(ba) => ba.id == id,
        Option::None => false,
    }
}

/// Decides which event a command emits, at the given time. Domain legality
/// beyond identity is deferred to event application.
pub open spec fn spec_handle(
    agg: BankAccountAggregateV,
    command: BankAccountCommandV,
    at: i64,
) -> Result<Seq<BankAccountEventV>, ErrorV> {
    match command {
        BankAccountCommandV::Open { bank_account_id, name } => match agg.state {
            Option::Some(_) => Err(ErrorV::AlreadyOpened(bank_account_id)),
            Option::None => Ok(
                seq![BankAccountEventV::Opened { bank_account_id, name, occurred_at: at }],
            ),
        },
        BankAccountCommandV::Update { bank_account_id, name } => if spec_equals_id(
            agg,
            bank_account_id,
        ) {
            Ok(seq![BankAccountEventV::Updated { bank_account_id, name, occurred_at: at }])
        } else {
            Err(ErrorV::InvalidState(bank_account_id))
        },
        BankAccountCommandV::Deposit { bank_account_id, deposit } => if spec_equals_id(
            agg,
            bank_account_id,
        ) {
            Ok(seq![BankAccountEventV::Deposited { bank_account_id, deposit, occurred_at: at }])
        } else {
            Err(ErrorV::InvalidState(bank_account_id))
        },
        BankAccountCommandV::Withdraw { bank_account_id, withdraw } => if spec_equals_id(
            agg,
            bank_account_id,
        ) {
            Ok(seq![BankAccountEventV::Withdrawn { bank_account_id, withdraw, occurred_at: at }])
        } else {
            Err(ErrorV::InvalidState(bank_account_id))
        },
        BankAccountCommandV::Close { bank_account_id } => if spec_equals_id(
            agg,
            bank_account_id,
        ) {
            Ok(seq![BankAccountEventV::Closed { bank_account_id, occurred_at: at }])
        } else {
            Err(ErrorV::InvalidState(bank_account_id))
        },
    }
}

/// Folds events and then pins the version, as the load path does.
pub open spec fn spec_load_from_history(
    agg: BankAccountAggregateV,
    events: Seq<BankAccountEventV>,
    version: u64,
) -> Result<BankAccountAggregateV, ErrorV> {
    match spec_fold_events(agg, events) {
        Ok(a2) => Ok(BankAccountAggregateV { state: a2.state, version }),
        Err(e) => Err(e),
    }
}

/// The views of a sequence of events.
pub open spec fn events_view(s: Seq<BankAccountEvent>) -> Seq<BankAccountEventV> {
    s.map_values(|e: BankAccountEvent| e@)
}

/// View of an aggregate result, for stating contracts.
pub open spec fn aggregate_result_view(r: Result<BankAccountAggregate, Error>) -> Result<
    BankAccountAggregateV,
    ErrorV,
> {
    match r {
        Ok(a) => Ok(a@),
        Err(e) => Err(e@),
    }
}

/// View of an emitted-events result, for stating contracts.
pub open spec fn events_result_view(r: Result<Vec<BankAccountEvent>, Error>) -> Result<
    Seq<BankAccountEventV>,
    ErrorV,
> {
    match r {
        Ok(v) => Ok(events_view(v@)),
        Err(e) => Err(e@),
    }
}

/// The stream every account's events are appended to.
pub open spec fn spec_stream_id(id: Seq<char>) -> Seq<char> {
    "bank_account:"@ + id
}

/// The pair of a (possibly absent) account state and the last loaded stream
/// version.
#[derive(Debug)]
pub struct BankAccountAggregate {
    state: Option<BankAccount>,
    version: u64,
}

impl View for BankAccountAggregate {
    type V = BankAccountAggregateV;

    closed spec fn view(&self) -> BankAccountAggregateV {
        BankAccountAggregateV {
            state: match self.state {
                Option::Some(ref ba) => Option::Some(ba@),
                Option::None => Option::None,
            },
            version: self.version,
        }
    }
}

impl Clone for BankAccountAggregate {
    fn clone(&self) -> (r: Self)
        ensures
            r == *self,
    {
        Self {
            state: match &self.state {
                Option::Some(ba) => Option::Some(ba.clone()),
                Option::None => Option::None,
            },
            version: self.version,
        }
    }
}

impl BankAccountAggregate {
    /// A fresh, not-yet-opened aggregate.
    pub fn new() -> (r: Self)
        ensures
            r@ == (BankAccountAggregateV { state: Option::None, version: 0 }),
    {
        Self { state: Option::None, version: 0 }
    }

    /// The stream id of the account: `bank_account:` followed by the id.
    pub fn stream_id(bank_account_id: &BankAccountId) -> (r: String)
        ensures
            r@ == spec_stream_id(bank_account_id@),
    {
        let s = String::from_str("bank_account:");
        s.concat(bank_account_id.value())
    }

    /// An aggregate with the given state at the given version.
    pub fn load(bank_account: BankAccount, version: u64) -> (r: Self)
        ensures
            r@ == (BankAccountAggregateV {
                state: Option::Some(bank_account@),
                version,
            }),
    {
        Self { state: Option::Some(bank_account), version }
    }

    /// Restarts from a snapshot: its data at its stream version.
    pub fn load_from_snapshot(snapshot: Snapshot<BankAccount>) -> (r: Self)
        ensures
            r@ == (BankAccountAggregateV {
                state: Option::Some(snapshot@.data),
                version: snapshot@.stream_version,
            }),
    {
        let version = snapshot.stream_version();
        Self::load(snapshot.snapshot().clone(), version)
    }

    /// Folds a run of history over a base aggregate and pins the version.
    pub fn load_from_history(aggregate: &Self, history: Vec<BankAccountEvent>, version: u64) -> (r:
        Result<Self, Error>)
        ensures
            aggregate_result_view(r) == spec_load_from_history(
                aggregate@,
                events_view(history@),
                version,
            ),
    {
        let ghost evs = events_view(history@);
        let mut agg = aggregate.clone();
        let mut i: usize = 0;
        while i < history.len()
            invariant
                evs == events_view(history@),
                i <= history@.len(),
                evs.len() == history@.len(),
                spec_fold_events(aggregate@, evs.take(i as int)) == Ok::<
                    BankAccountAggregateV,
                    ErrorV,
                >(agg@),
            decreases history@.len() - i,
        {
            let ev = history[i].clone();
            proof {
                assert(evs[i as int] == history@[i as int]@);
            }
            match Self::apply_event(&agg, ev) {
                Ok(a2) => {
                    proof {
                        lemma_fold_events_split(aggregate@, evs.take(i + 1 as int), i as int);
                        assert(evs.take(i + 1 as int).take(i as int) =~= evs.take(i as int));
                        assert(evs.take(i + 1 as int).skip(i as int) =~= seq![evs[i as int]]);
                        assert(seq![evs[i as int]].skip(1) =~= Seq::<BankAccountEventV>::empty());
                        assert(spec_fold_events(a2@, seq![evs[i as int]].skip(1)) == Ok::<
                            BankAccountAggregateV,
                            ErrorV,
                        >(a2@));
                    }
                    agg = a2;
                },
                Err(e) => {
                    proof {
                        lemma_fold_events_split(aggregate@, evs, i as int);
                        assert(evs.skip(i as int)[0] == evs[i as int]);
                    }
                    return Err(e);
                },
            }
            i = i + 1;
        }
        proof {
            assert(evs.take(history@.len() as int) =~= evs);
        }
        Ok(Self { state: agg.state, version })
    }

    /// Decides which event the command emits, against the current state, at
    /// the given time.
    pub fn handle_command_at(
        aggregate: &Self,
        command: BankAccountCommand,
        occurred_at: Timestamp,
    ) -> (r: Result<Vec<BankAccountEvent>, Error>)
        ensures
            events_result_view(r) == spec_handle(aggregate@, command@, occurred_at.millis),
    {
        match command {
            BankAccountCommand::Open { bank_account_id, name } => match &aggregate.state {
                Option::Some(_) => Err(Error::new(ErrorKind::AlreadyOpened(bank_account_id))),
                Option::None => {
                    let mut events: Vec<BankAccountEvent> = Vec::new();
                    events.push(
                        BankAccountEvent::Opened { bank_account_id, name, occurred_at },
                    );
                    proof {
                        assert(events_view(events@) =~= spec_handle(
                            aggregate@,
                            command@,
                            occurred_at.millis,
                        )->Ok_0);
                    }
                    Ok(events)
                },
            },
            BankAccountCommand::Update { bank_account_id, name } => {
                if aggregate.equals_id(&bank_account_id) {
                    let mut events: Vec<BankAccountEvent> = Vec::new();
                    events.push(
                        BankAccountEvent::Updated { bank_account_id, name, occurred_at },
                    );
                    proof {
                        assert(events_view(events@) =~= spec_handle(
                            aggregate@,
                            command@,
                            occurred_at.millis,
                        )->Ok_0);
                    }
                    Ok(events)
                } else {
                    Err(Error::new(ErrorKind::InvalidState(bank_account_id)))
                }
            },
            BankAccountCommand::Deposit { bank_account_id, deposit } => {
                if aggregate.equals_id(&bank_account_id) {
                    let mut events: Vec<BankAccountEvent> = Vec::new();
                    events.push(
                        BankAccountEvent::Deposited { bank_account_id, deposit, occurred_at },
                    );
                    proof {
                        assert(events_view(events@) =~= spec_handle(
                            aggregate@,
                            command@,
                            occurred_at.millis,
                        )->Ok_0);
                    }
                    Ok(events)
                } else {
                    Err(Error::new(ErrorKind::InvalidState(bank_account_id)))
                }
            },
            BankAccountCommand::Withdraw { bank_account_id, withdraw } => {
                if aggregate.equals_id(&bank_account_id) {
                    let mut events: Vec<BankAccountEvent> = Vec::new();
                    events.push(
                        BankAccountEvent::Withdrawn { bank_account_id, withdraw, occurred_at },
                    );
                    proof {
                        assert(events_view(events@) =~= spec_handle(
                            aggregate@,
                            command@,
                            occurred_at.millis,
                        )->Ok_0);
                    }
                    Ok(events)
                } else {
                    Err(Error::new(ErrorKind::InvalidState(bank_account_id)))
                }
            },
            BankAccountCommand::Close { bank_account_id } => {
                if aggregate.equals_id(&bank_account_id) {
                    let mut events: Vec<BankAccountEvent> = Vec::new();
                    events.push(BankAccountEvent::Closed { bank_account_id, occurred_at });
                    proof {
                        assert(events_view(events@) =~= spec_handle(
                            aggregate@,
                            command@,
                            occurred_at.millis,
                        )->Ok_0);
                    }
                    Ok(events)
                } else {
                    Err(Error::new(ErrorKind::InvalidState(bank_account_id)))
                }
            },
        }
    }

    /// Decides which event the command emits, reading the clock for the
    /// event's timestamp.
    pub fn handle_command(aggregate: &Self, command: BankAccountCommand) -> (r: Result<
        Vec<BankAccountEvent>,
        Error,
    >)
        ensures
            exists|t: i64| events_result_view(r) == #[trigger] spec_handle(
                aggregate@,
                command@,
                t,
            ),
    {
        let now = crate::clock::now_timestamp();
        let ghost t0 = now.millis;
        let r = Self::handle_command_at(aggregate, command, now);
        proof {
            assert(events_result_view(r) == spec_handle(aggregate@, command@, t0));
        }
        r
    }

    /// Applies one event, enforcing every legality rule.
    pub fn apply_event(aggregate: &Self, event: BankAccountEvent) -> (r: Result<Self, Error>)
        ensures
            aggregate_result_view(r) == spec_apply_event(aggregate@, event@),
    {
        match event {
            BankAccountEvent::Opened { bank_account_id, name, occurred_at } => match &aggregate
                .state {
                Option::Some(_) => Err(Error::new(ErrorKind::AlreadyOpened(bank_account_id))),
                Option::None => Ok(
                    Self {
                        state: Option::Some(
                            BankAccount::new(
                                bank_account_id,
                                name,
                                false,
                                0,
                                occurred_at,
                                occurred_at,
                            ),
                        ),
                        version: aggregate.version,
                    },
                ),
            },
            BankAccountEvent::Updated { name, occurred_at, .. } => match &aggregate.state {
                Option::None => Err(Error::new(ErrorKind::NotYetOpened)),
                Option::Some(ba) => match ba.with_name(name, occurred_at) {
                    Ok(b2) => Ok(
                        Self { state: Option::Some(b2), version: aggregate.version },
                    ),
                    Err(e) => Err(e),
                },
            },
            BankAccountEvent::Deposited { deposit, occurred_at, .. } => match &aggregate.state {
                Option::None => Err(Error::new(ErrorKind::NotYetOpened)),
                Option::Some(ba) => match ba.deposit(deposit, occurred_at) {
                    Ok(b2) => Ok(
                        Self { state: Option::Some(b2), version: aggregate.version },
                    ),
                    Err(e) => Err(e),
                },
            },
            BankAccountEvent::Withdrawn { withdraw, occurred_at, .. } => match &aggregate.state {
                Option::None => Err(Error::new(ErrorKind::NotYetOpened)),
                Option::Some(ba) => match ba.withdraw(withdraw, occurred_at) {
                    Ok(b2) => Ok(
                        Self { state: Option::Some(b2), version: aggregate.version },
                    ),
                    Err(e) => Err(e),
                },
            },
            BankAccountEvent::Closed { occurred_at, .. } => match &aggregate.state {
                Option::None => Err(Error::new(ErrorKind::NotYetOpened)),
                Option::Some(ba) => match ba.close(occurred_at) {
                    Ok(b2) => Ok(
                        Self { state: Option::Some(b2), version: aggregate.version },
                    ),
                    Err(e) => Err(e),
                },
            },
        }
    }

    /// The id of the loaded account; only for opened aggregates.
    pub fn id(&self) -> (r: &BankAccountId)
        requires
            self@.state is Some,
        ensures
            r@ == self@.state->Some_0.id,
    {
        match &self.state {
            Option::Some(ba) => ba.id(),
            Option::None => unreached(),
        }
    }

    pub fn state(&self) -> (r: &Option<BankAccount>)
        ensures
            r is Some <==> self@.state is Some,
            r matches Some(ba) ==> self@.state matches Some(bav) && ba@ == bav,
    {
        &self.state
    }

    pub fn version(&self) -> (r: u64)
        ensures
            r == self@.version,
    {
        self.version
    }

    pub fn set_version(&mut self, version: u64)
        ensures
            final(self)@ == (BankAccountAggregateV { state: old(self)@.state, version }),
    {
        self.version = version;
    }

    pub fn increment_version(&mut self)
        requires
            old(self)@.version < u64::MAX,
        ensures
            final(self)@ == (BankAccountAggregateV {
                state: old(self)@.state,
                version: (old(self)@.version + 1) as u64,
            }),
    {
        self.version = self.version + 1;
    }

    /// Whether the loaded account is the one the id names.
    pub fn equals_id(&self, bank_account_id: &BankAccountId) -> (r: bool)
        ensures
            r == spec_equals_id(self@, bank_account_id@),
    {
        match &self.state {
            Option::Some(ba) => ba.id().eq_id(bank_account_id),
            Option::None => false,
        }
    }
}

/// Copies a run of events.
pub(crate) fn clone_events(events: &Vec<BankAccountEvent>) -> (r: Vec<BankAccountEvent>)
    ensures
        r@ == events@,
{
    let mut out: Vec<BankAccountEvent> = Vec::new();
    let mut i: usize = 0;
    while i < events.len()
        invariant
            i <= events@.len(),
            out@ == events@.take(i as int),
        decreases events@.len() - i,
    {
        out.push(events[i].clone());
        proof {
            assert(events@.take(i + 1 as int) =~= events@.take(i as int).push(
                events@[i as int],
            ));
        }
        i = i + 1;
    }
    proof {
        assert(events@.take(events@.len() as int) =~= events@);
    }
    out
}

// ---------------------------------------------------------------------------
// Laws of the state machine
// ---------------------------------------------------------------------------

/// A fresh, not-yet-opened aggregate model.
pub open spec fn spec_new_aggregate() -> BankAccountAggregateV {
    BankAccountAggregateV { state: Option::None, version: 0 }
}

/// The canonical decision over an aggregate: decide the command, then hold
/// the decided events to the application rules.
pub open spec fn spec_decide(
    agg: BankAccountAggregateV,
    command: BankAccountCommandV,
    at: i64,
) -> Result<BankAccountAggregateV, ErrorV> {
    match spec_handle(agg, command, at) {
        Err(e) => Err(e),
        Ok(events) => spec_fold_events(agg, events),
    }
}

/// The algebraic sum of deposits minus withdrawals over a run of events.
pub open spec fn spec_net_amount(events: Seq<BankAccountEventV>) -> int
    decreases events.len(),
{
    if events.len() == 0 {
        0
    } else {
        (match events[0] {
            BankAccountEventV::Deposited { deposit, .. } => deposit as int,
            BankAccountEventV::Withdrawn { withdraw, .. } => -(withdraw as int),
            _ => 0,
        }) + spec_net_amount(events.skip(1))
    }
}

/// One accepted event moves an open account's balance by exactly the
/// event's amount, keeps it non-negative, and never reopens or renames the
/// account's identity.
proof fn lemma_apply_state_step(ba: BankAccountV, event: BankAccountEventV)
    requires
        ba.balance >= 0,
        spec_apply_state(Option::Some(ba), event) is Ok,
    ensures
        spec_apply_state(Option::Some(ba), event) matches Ok(s2) && s2 matches Some(ba2)
            && ba2.balance >= 0 && ba2.balance == ba.balance + (match event {
            BankAccountEventV::Deposited { deposit, .. } => deposit as int,
            BankAccountEventV::Withdrawn { withdraw, .. } => -(withdraw as int),
            _ => 0,
        }) && ba2.id == ba.id,
{
}

/// Folding accepted events over an open account keeps the balance
/// non-negative and moves it by the net amount of the events.
proof fn lemma_fold_balance(a: BankAccountAggregateV, events: Seq<BankAccountEventV>)
    requires
        a.state matches Some(ba) && ba.balance >= 0,
        spec_fold_events(a, events) is Ok,
    ensures
        spec_fold_events(a, events) matches Ok(a2) && a2.state matches Some(ba2) && ba2.balance
            >= 0 && ba2.balance == a.state->Some_0.balance + spec_net_amount(events),
    decreases events.len(),
{
    if events.len() > 0 {
        lemma_apply_state_step(a.state->Some_0, events[0]);
        let a1 = spec_apply_event(a, events[0])->Ok_0;
        lemma_fold_balance(a1, events.skip(1));
    }
}

/// For any account state reached by replaying a history from scratch, the
/// balance is non-negative and equals the algebraic sum of the deposits
/// minus the withdrawals in the history.
pub proof fn lemma_balance_is_net_of_history(events: Seq<BankAccountEventV>)
    requires
        spec_fold_events(spec_new_aggregate(), events) is Ok,
    ensures
        spec_fold_events(spec_new_aggregate(), events) matches Ok(a) ==> (a.state matches Some(ba)
            ==> ba.balance >= 0 && ba.balance == spec_net_amount(events)),
    decreases events.len(),
{
    let a = spec_fold_events(spec_new_aggregate(), events)->Ok_0;
    if events.len() == 0 {
    } else {
        match events[0] {
            BankAccountEventV::Opened { bank_account_id, name, occurred_at } => {
                let a1 = spec_apply_event(spec_new_aggregate(), events[0])->Ok_0;
                assert(a1.state->Some_0.balance == 0);
                lemma_fold_balance(a1, events.skip(1));
            },
            _ => {},
        }
    }
}

/// Once a `Closed` event has been applied, every later command but a
/// reopen request is refused: the decision ends in an already-closed or
/// invalid-state error, whatever the command's payload and time.
pub proof fn lemma_closed_account_rejects_commands(
    agg: BankAccountAggregateV,
    command: BankAccountCommandV,
    at: i64,
)
    requires
        agg.state matches Some(ba) && ba.is_closed,
        !(command is Open),
    ensures
        spec_decide(agg, command, at) matches Err(e) && (e is AlreadyClosed || e is InvalidState),
{
    match spec_handle(agg, command, at) {
        Err(e) => {
            assert(e is InvalidState);
        },
        Ok(events) => {
            assert(events.len() == 1);
            assert(spec_apply_event(agg, events[0]) matches Err(e2) && e2 is AlreadyClosed);
            assert(events.skip(1) =~= Seq::<BankAccountEventV>::empty());
        },
    }
}

/// Fold results do not depend on the version an aggregate was loaded at:
/// equal states fold equally, error for error and state for state.
proof fn lemma_fold_version_irrelevant(
    a1: BankAccountAggregateV,
    a2: BankAccountAggregateV,
    events: Seq<BankAccountEventV>,
)
    requires
        a1.state == a2.state,
    ensures
        spec_fold_events(a1, events) is Ok <==> spec_fold_events(a2, events) is Ok,
        spec_fold_events(a1, events) matches Ok(r1) ==> r1.state == spec_fold_events(
            a2,
            events,
        )->Ok_0.state,
        spec_fold_events(a1, events) matches Err(e1) ==> e1 == spec_fold_events(
            a2,
            events,
        )->Err_0,
    decreases events.len(),
{
    if events.len() > 0 {
        match spec_apply_state(a1.state, events[0]) {
            Ok(s) => {
                lemma_fold_version_irrelevant(
                    spec_apply_event(a1, events[0])->Ok_0,
                    spec_apply_event(a2, events[0])->Ok_0,
                    events.skip(1),
                );
            },
            Err(_) => {},
        }
    }
}

/// Determinism of loading: replaying a whole history from scratch reaches
/// the same account state as restarting from a snapshot taken at any prefix
/// (at whatever stream version the snapshot records) and folding the rest.
pub proof fn lemma_snapshot_load_determinism(
    events: Seq<BankAccountEventV>,
    k: int,
    snap_version: u64,
)
    requires
        0 <= k <= events.len(),
        spec_fold_events(spec_new_aggregate(), events.take(k)) is Ok,
    ensures
        ({
            let mid = spec_fold_events(spec_new_aggregate(), events.take(k))->Ok_0;
            let base = BankAccountAggregateV { state: mid.state, version: snap_version };
            let full = spec_fold_events(spec_new_aggregate(), events);
            let resumed = spec_fold_events(base, events.skip(k));
            &&& (full is Ok <==> resumed is Ok)
            &&& (full matches Ok(af) ==> af.state == resumed->Ok_0.state)
            &&& (full matches Err(ef) ==> ef == resumed->Err_0)
        }),
{
    let mid = spec_fold_events(spec_new_aggregate(), events.take(k))->Ok_0;
    let base = BankAccountAggregateV { state: mid.state, version: snap_version };
    lemma_fold_events_split(spec_new_aggregate(), events, k);
    lemma_fold_version_irrelevant(mid, base, events.skip(k));
}

/// A non-empty history that folds successfully from scratch always yields an
/// opened account state.
pub proof fn lemma_fold_nonempty_has_state(
    agg: BankAccountAggregateV,
    events: Seq<BankAccountEventV>,
)
    requires
        spec_fold_events(agg, events) is Ok,
        agg.state is Some || events.len() > 0,
    ensures
        spec_fold_events(agg, events)->Ok_0.state is Some,
    decreases events.len(),
{
    if events.len() > 0 {
        lemma_fold_nonempty_has_state(spec_apply_event(agg, events[0])->Ok_0, events.skip(1));
    }
}

} // verus!
