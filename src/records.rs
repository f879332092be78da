use vstd::prelude::*;

verus! {

/// A bank: caller-chosen identifier, display name, and the identifiers of the
/// accounts opened against it, in order of opening.
#[derive(Debug)]
pub struct Bank {
    pub id: u32,
    pub name: String,
    pub accounts: Vec<u32>,
}

/// A user: caller-chosen identifier, display name, and the identifiers of the
/// accounts they hold, in order of opening.
#[derive(Debug)]
pub struct User {
    pub id: u32,
    pub name: String,
    pub accounts: Vec<u32>,
}

/// An account: identifier, balance in the smallest currency unit, the bank it
/// is held at and the users who own it.
#[derive(Debug)]
pub struct Account {
    pub id: u32,
    pub balance: i64,
    pub bank_id: u32,
    pub owners: Vec<u32>,
}

/// A recorded request that `recipient` be paid `amount` by `sender`.
#[derive(Debug)]
pub struct MoneyRequest {
    pub sender: u32,
    pub recipient: u32,
    pub amount: i64,
    pub status: String,
}

/// Why a ledger operation was refused. A refused operation changes nothing.
#[derive(Debug, Clone, Copy, PartialEq, Eq, Structural)]
pub enum LedgerError {
    /// A referenced bank, user or account does not exist.
    NotFound,
    /// The account's balance is below the requested amount.
    InsufficientFunds,
    /// The amount is zero or negative.
    InvalidAmount,
    /// A transfer names the same account as sender and recipient.
    SameAccount,
    /// The resulting balance would not fit in an `i64`.
    Overflow,
}

pub struct BankModel {
    pub id: u32,
    pub name: Seq<char>,
    pub accounts: Seq<u32>,
}

pub struct UserModel {
    pub id: u32,
    pub name: Seq<char>,
    pub accounts: Seq<u32>,
}

pub struct AccountModel {
    pub id: u32,
    pub balance: int,
    pub bank_id: u32,
    pub owners: Seq<u32>,
}

pub struct RequestModel {
    pub sender: u32,
    pub recipient: u32,
    pub amount: int,
    pub status: Seq<char>,
}

impl View for Bank {
    type V = BankModel;

    open spec fn view(&self) -> BankModel {
        BankModel { id: self.id, name: self.name@, accounts: self.accounts@ }
    }
}

impl View for User {
    type V = UserModel;

    open spec fn view(&self) -> UserModel {
        UserModel { id: self.id, name: self.name@, accounts: self.accounts@ }
    }
}

impl View for Account {
    type V = AccountModel;

    open spec fn view(&self) -> AccountModel {
        AccountModel {
            id: self.id,
            balance: self.balance as int,
            bank_id: self.bank_id,
            owners: self.owners@,
        }
    }
}

impl View for MoneyRequest {
    type V = RequestModel;

    open spec fn view(&self) -> RequestModel {
        RequestModel {
            sender: self.sender,
            recipient: self.recipient,
            amount: self.amount as int,
            status: self.status@,
        }
    }
}

} // verus!

verus! {

/// The models of a sequence of records, position by position.
pub open spec fn models<T: View>(s: Seq<T>) -> Seq<T::V> {
    s.map_values(|x: T| x@)
}

} // verus!
