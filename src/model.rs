use vstd::prelude::*;

use crate::records::{AccountModel, BankModel, LedgerError, RequestModel, UserModel};

verus! {

/// The whole ledger as mathematical values: the four collections, each in
/// order of insertion.
pub struct LedgerModel {
    pub banks: Seq<BankModel>,
    pub users: Seq<UserModel>,
    pub accounts: Seq<AccountModel>,
    pub requests: Seq<RequestModel>,
}

/// The status every new money request starts in.
pub open spec fn pending_status() -> Seq<char> {
    "Pending"@
}

pub open spec fn has_bank(banks: Seq<BankModel>, id: u32) -> bool {
    exists|i: int| 0 <= i < banks.len() && #[trigger] banks[i].id == id
}

pub open spec fn has_user(users: Seq<UserModel>, id: u32) -> bool {
    exists|i: int| 0 <= i < users.len() && #[trigger] users[i].id == id
}

/// `i` is the first position holding a bank with identifier `id`.
pub open spec fn is_first_bank(banks: Seq<BankModel>, id: u32, i: int) -> bool {
    &&& 0 <= i < banks.len()
    &&& banks[i].id == id
    &&& forall|j: int| 0 <= j < i ==> #[trigger] banks[j].id != id
}

/// `i` is the first position holding a user with identifier `id`.
pub open spec fn is_first_user(users: Seq<UserModel>, id: u32, i: int) -> bool {
    &&& 0 <= i < users.len()
    &&& users[i].id == id
    &&& forall|j: int| 0 <= j < i ==> #[trigger] users[j].id != id
}

/// `i` is the first position holding an account with identifier `id`.
pub open spec fn is_first_account(accounts: Seq<AccountModel>, id: u32, i: int) -> bool {
    &&& 0 <= i < accounts.len()
    &&& accounts[i].id == id
    &&& forall|j: int| 0 <= j < i ==> #[trigger] accounts[j].id != id
}

/// The position an identifier resolves to: the first bank holding it.
pub open spec fn bank_index(banks: Seq<BankModel>, id: u32) -> int {
    choose|i: int| is_first_bank(banks, id, i)
}

/// The position an identifier resolves to: the first user holding it.
pub open spec fn user_index(users: Seq<UserModel>, id: u32) -> int {
    choose|i: int| is_first_user(users, id, i)
}

/// The account an identifier resolves to: the first one holding it, if any.
pub open spec fn find_account(accounts: Seq<AccountModel>, id: u32) -> Option<int> {
    if exists|i: int| is_first_account(accounts, id, i) {
        Some(choose|i: int| is_first_account(accounts, id, i))
    } else {
        None
    }
}

pub open spec fn fits_i64(x: int) -> bool {
    i64::MIN <= x <= i64::MAX
}

/// The account at `i` with its balance replaced by `balance`.
pub open spec fn with_balance(accounts: Seq<AccountModel>, i: int, balance: int) -> Seq<
    AccountModel,
> {
    accounts.update(i, AccountModel { balance, ..accounts[i] })
}

/// Every account refers to an existing bank and has exactly one owner, an
/// existing user. Every operation keeps this.
pub open spec fn well_formed(m: LedgerModel) -> bool {
    forall|k: int|
        0 <= k < m.accounts.len() ==> {
            &&& has_bank(m.banks, #[trigger] m.accounts[k].bank_id)
            &&& m.accounts[k].owners.len() == 1
            &&& has_user(m.users, m.accounts[k].owners[0])
        }
}

pub open spec fn empty_ledger() -> LedgerModel {
    LedgerModel {
        banks: Seq::empty(),
        users: Seq::empty(),
        accounts: Seq::empty(),
        requests: Seq::empty(),
    }
}

pub open spec fn create_bank_spec(m: LedgerModel, id: u32, name: Seq<char>) -> LedgerModel {
    LedgerModel {
        banks: m.banks.push(BankModel { id, name, accounts: Seq::empty() }),
        ..m
    }
}

pub open spec fn create_user_spec(m: LedgerModel, id: u32, name: Seq<char>) -> LedgerModel {
    LedgerModel {
        users: m.users.push(UserModel { id, name, accounts: Seq::empty() }),
        ..m
    }
}

/// Opening an account: refused with `NotFound` unless both the bank and the
/// user exist; otherwise the account is appended and its identifier is
/// recorded with the (first) matching bank and user.
pub open spec fn open_account_spec(
    m: LedgerModel,
    account_id: u32,
    bank_id: u32,
    user_id: u32,
    opening_balance: int,
) -> (Result<(), LedgerError>, LedgerModel) {
    if !has_bank(m.banks, bank_id) || !has_user(m.users, user_id) {
        (Err(LedgerError::NotFound), m)
    } else {
        let bi = bank_index(m.banks, bank_id);
        let ui = user_index(m.users, user_id);
        let acct = AccountModel {
            id: account_id,
            balance: opening_balance,
            bank_id,
            owners: seq![user_id],
        };
        (
            Ok(()),
            LedgerModel {
                banks: m.banks.update(
                    bi,
                    BankModel { accounts: m.banks[bi].accounts.push(account_id), ..m.banks[bi] },
                ),
                users: m.users.update(
                    ui,
                    UserModel { accounts: m.users[ui].accounts.push(account_id), ..m.users[ui] },
                ),
                accounts: m.accounts.push(acct),
                requests: m.requests,
            },
        )
    }
}

/// Moving `amount` from `sender` to `recipient`. The checks come in this
/// order: both accounts exist, they are distinct, the sender's balance covers
/// the amount, the amount is positive, the recipient's new balance fits.
/// A non-positive amount larger than the sender's balance is therefore
/// reported as `InsufficientFunds`.
pub open spec fn transfer_spec(m: LedgerModel, sender: u32, recipient: u32, amount: int) -> (
    Result<(), LedgerError>,
    LedgerModel,
) {
    match (find_account(m.accounts, sender), find_account(m.accounts, recipient)) {
        (Some(si), Some(ri)) => {
            if si == ri {
                (Err(LedgerError::SameAccount), m)
            } else if m.accounts[si].balance < amount {
                (Err(LedgerError::InsufficientFunds), m)
            } else if amount <= 0 {
                (Err(LedgerError::InvalidAmount), m)
            } else if !fits_i64(m.accounts[ri].balance + amount) {
                (Err(LedgerError::Overflow), m)
            } else {
                let debited = with_balance(m.accounts, si, m.accounts[si].balance - amount);
                (
                    Ok(()),
                    LedgerModel {
                        accounts: with_balance(debited, ri, m.accounts[ri].balance + amount),
                        ..m
                    },
                )
            }
        },
        _ => (Err(LedgerError::NotFound), m),
    }
}

/// Adding `amount` to an account: the amount must be positive, the account
/// must exist, and the new balance must fit.
pub open spec fn deposit_spec(m: LedgerModel, account_id: u32, amount: int) -> (
    Result<(), LedgerError>,
    LedgerModel,
) {
    if amount <= 0 {
        (Err(LedgerError::InvalidAmount), m)
    } else {
        match find_account(m.accounts, account_id) {
            None => (Err(LedgerError::NotFound), m),
            Some(i) => {
                if !fits_i64(m.accounts[i].balance + amount) {
                    (Err(LedgerError::Overflow), m)
                } else {
                    (
                        Ok(()),
                        LedgerModel {
                            accounts: with_balance(m.accounts, i, m.accounts[i].balance + amount),
                            ..m
                        },
                    )
                }
            },
        }
    }
}

/// Taking `amount` out of an account: the amount must be positive, the
/// account must exist, and its balance must cover the amount.
pub open spec fn withdraw_spec(m: LedgerModel, account_id: u32, amount: int) -> (
    Result<(), LedgerError>,
    LedgerModel,
) {
    if amount <= 0 {
        (Err(LedgerError::InvalidAmount), m)
    } else {
        match find_account(m.accounts, account_id) {
            None => (Err(LedgerError::NotFound), m),
            Some(i) => {
                if m.accounts[i].balance < amount {
                    (Err(LedgerError::InsufficientFunds), m)
                } else {
                    (
                        Ok(()),
                        LedgerModel {
                            accounts: with_balance(m.accounts, i, m.accounts[i].balance - amount),
                            ..m
                        },
                    )
                }
            },
        }
    }
}

/// Recording a money request: both accounts must exist and the amount must
/// be positive; the request is appended with the pending status.
pub open spec fn request_money_spec(m: LedgerModel, sender: u32, recipient: u32, amount: int) -> (
    Result<(), LedgerError>,
    LedgerModel,
) {
    if find_account(m.accounts, sender) is None || find_account(m.accounts, recipient) is None {
        (Err(LedgerError::NotFound), m)
    } else if amount <= 0 {
        (Err(LedgerError::InvalidAmount), m)
    } else {
        (
            Ok(()),
            LedgerModel {
                requests: m.requests.push(
                    RequestModel { sender, recipient, amount, status: pending_status() },
                ),
                ..m
            },
        )
    }
}

} // verus!

verus! {

/// An identifier resolves to the first account that carries it.
pub proof fn lemma_first_account_found(accounts: Seq<AccountModel>, id: u32, i: int)
    requires
        is_first_account(accounts, id, i),
    ensures
        find_account(accounts, id) == Some(i),
{
    let k = choose|k: int| is_first_account(accounts, id, k);
    assert(is_first_account(accounts, id, k));
    if k < i {
        assert(accounts[k].id != id);
    } else if k > i {
        assert(accounts[i].id != id);
    }
}

/// An identifier resolves to the first bank that carries it.
pub proof fn lemma_first_bank_index(banks: Seq<BankModel>, id: u32, i: int)
    requires
        is_first_bank(banks, id, i),
    ensures
        bank_index(banks, id) == i,
{
    let k = bank_index(banks, id);
    assert(is_first_bank(banks, id, k));
    if k < i {
        assert(banks[k].id != id);
    } else if k > i {
        assert(banks[i].id != id);
    }
}

/// An identifier resolves to the first user that carries it.
pub proof fn lemma_first_user_index(users: Seq<UserModel>, id: u32, i: int)
    requires
        is_first_user(users, id, i),
    ensures
        user_index(users, id) == i,
{
    let k = user_index(users, id);
    assert(is_first_user(users, id, k));
    if k < i {
        assert(users[k].id != id);
    } else if k > i {
        assert(users[i].id != id);
    }
}

} // verus!
