use vstd::prelude::*;

use crate::model::{
    create_bank_spec, create_user_spec, deposit_spec, empty_ledger, find_account,
    is_first_account, is_first_bank, is_first_user, lemma_first_account_found,
    lemma_first_bank_index, lemma_first_user_index, open_account_spec, request_money_spec,
    transfer_spec, well_formed, with_balance, withdraw_spec, LedgerModel, has_bank, has_user,
};
use crate::records::{models, Account, Bank, LedgerError, MoneyRequest, User};

verus! {

/// The ledger: every bank, user, account and money request, each kept in
/// order of creation. Records are never removed.
///
/// Identifiers are chosen by the caller and are not checked for uniqueness;
/// an identifier always resolves to the first record that carries it.
pub struct BankingSystem {
    banks: Vec<Bank>,
    users: Vec<User>,
    accounts: Vec<Account>,
    requests: Vec<MoneyRequest>,
}

impl View for BankingSystem {
    type V = LedgerModel;

    closed spec fn view(&self) -> LedgerModel {
        LedgerModel {
            banks: models(self.banks@),
            users: models(self.users@),
            accounts: models(self.accounts@),
            requests: models(self.requests@),
        }
    }
}

impl BankingSystem {
    /// An empty ledger.
    pub fn new() -> (r: BankingSystem)
        ensures
            r@ == empty_ledger(),
            well_formed(r@),
    {
        let r = BankingSystem {
            banks: Vec::new(),
            users: Vec::new(),
            accounts: Vec::new(),
            requests: Vec::new(),
        };
        assert(r@.banks =~= empty_ledger().banks);
        assert(r@.users =~= empty_ledger().users);
        assert(r@.accounts =~= empty_ledger().accounts);
        assert(r@.requests =~= empty_ledger().requests);
        r
    }

    /// The position of the first bank with identifier `id`.
    fn bank_position(&self, id: u32) -> (r: Option<usize>)
        ensures
            match r {
                Some(i) => is_first_bank(self@.banks, id, i as int),
                None => !has_bank(self@.banks, id),
            },
    {
        let mut i: usize = 0;
        while i < self.banks.len()
            invariant
                i <= self.banks.len(),
                forall|j: int| 0 <= j < i ==> #[trigger] self.banks@[j].id != id,
            decreases self.banks.len() - i,
        {
            if self.banks[i].id == id {
                return Some(i);
            }
            i = i + 1;
        }
        assert forall|j: int| 0 <= j < self@.banks.len() implies #[trigger] self@.banks[j].id
            != id by {
            assert(self.banks@[j].id != id);
        }
        None
    }

    /// The position of the first user with identifier `id`.
    fn user_position(&self, id: u32) -> (r: Option<usize>)
        ensures
            match r {
                Some(i) => is_first_user(self@.users, id, i as int),
                None => !has_user(self@.users, id),
            },
    {
        let mut i: usize = 0;
        while i < self.users.len()
            invariant
                i <= self.users.len(),
                forall|j: int| 0 <= j < i ==> #[trigger] self.users@[j].id != id,
            decreases self.users.len() - i,
        {
            if self.users[i].id == id {
                return Some(i);
            }
            i = i + 1;
        }
        assert forall|j: int| 0 <= j < self@.users.len() implies #[trigger] self@.users[j].id
            != id by {
            assert(self.users@[j].id != id);
        }
        None
    }

    /// The position of the account that `id` resolves to.
    fn account_position(&self, id: u32) -> (r: Option<usize>)
        ensures
            match r {
                Some(i) => find_account(self@.accounts, id) == Some(i as int) && i
                    < self.accounts.len(),
                None => find_account(self@.accounts, id) is None,
            },
    {
        let mut i: usize = 0;
        while i < self.accounts.len()
            invariant
                i <= self.accounts.len(),
                forall|j: int| 0 <= j < i ==> #[trigger] self.accounts@[j].id != id,
            decreases self.accounts.len() - i,
        {
            if self.accounts[i].id == id {
                proof {
                    assert(is_first_account(self@.accounts, id, i as int));
                    lemma_first_account_found(self@.accounts, id, i as int);
                }
                return Some(i);
            }
            i = i + 1;
        }
        assert forall|k: int| !is_first_account(self@.accounts, id, k) by {
            if 0 <= k < self@.accounts.len() {
                assert(self.accounts@[k].id != id);
            }
        }
        None
    }
    /// Moves `amount` from account `sender` to account `recipient`.
    ///
    /// Every check comes before any change, so a refused transfer leaves the
    /// ledger as it was. The balance check precedes the amount check, so a
    /// non-positive amount that exceeds the sender's balance is reported as
    /// `InsufficientFunds`.
    pub fn transfer(&mut self, sender: u32, recipient: u32, amount: i64) -> (r: Result<
        (),
        LedgerError,
    >)
        ensures
            (r, final(self)@) == transfer_spec(old(self)@, sender, recipient, amount as int),
    {
        let si = self.account_position(sender);
        let ri = self.account_position(recipient);
        match (si, ri) {
            (Some(si), Some(ri)) => {
                if si == ri {
                    return Err(LedgerError::SameAccount);
                }
                if self.accounts[si].balance < amount {
                    return Err(LedgerError::InsufficientFunds);
                }
                if amount <= 0 {
                    return Err(LedgerError::InvalidAmount);
                }
                let recipient_balance = self.accounts[ri].balance;
                if recipient_balance > i64::MAX - amount {
                    return Err(LedgerError::Overflow);
                }
                let ghost pre = self@;
                let sender_balance = self.accounts[si].balance;
                self.accounts[si].balance = sender_balance - amount;
                self.accounts[ri].balance = recipient_balance + amount;
                proof {
                    let debited = with_balance(
                        pre.accounts,
                        si as int,
                        pre.accounts[si as int].balance - amount,
                    );
                    assert(self@.accounts =~= with_balance(
                        debited,
                        ri as int,
                        pre.accounts[ri as int].balance + amount,
                    ));
                }
                Ok(())
            },
            _ => Err(LedgerError::NotFound),
        }
    }
    /// Adds `amount` to the balance of account `account_id`.
    pub fn deposit(&mut self, account_id: u32, amount: i64) -> (r: Result<(), LedgerError>)
        ensures
            (r, final(self)@) == deposit_spec(old(self)@, account_id, amount as int),
    {
        if amount <= 0 {
            return Err(LedgerError::InvalidAmount);
        }
        match self.account_position(account_id) {
            None => Err(LedgerError::NotFound),
            Some(i) => {
                let balance = self.accounts[i].balance;
                if balance > i64::MAX - amount {
                    return Err(LedgerError::Overflow);
                }
                let ghost pre = self@;
                self.accounts[i].balance = balance + amount;
                assert(self@.accounts =~= with_balance(
                    pre.accounts,
                    i as int,
                    pre.accounts[i as int].balance + amount,
                ));
                Ok(())
            },
        }
    }

    /// Takes `amount` out of account `account_id`.
    pub fn withdraw(&mut self, account_id: u32, amount: i64) -> (r: Result<(), LedgerError>)
        ensures
            (r, final(self)@) == withdraw_spec(old(self)@, account_id, amount as int),
    {
        if amount <= 0 {
            return Err(LedgerError::InvalidAmount);
        }
        match self.account_position(account_id) {
            None => Err(LedgerError::NotFound),
            Some(i) => {
                let balance = self.accounts[i].balance;
                if balance < amount {
                    return Err(LedgerError::InsufficientFunds);
                }
                let ghost pre = self@;
                self.accounts[i].balance = balance - amount;
                assert(self@.accounts =~= with_balance(
                    pre.accounts,
                    i as int,
                    pre.accounts[i as int].balance - amount,
                ));
                Ok(())
            },
        }
    }

    /// Records a request that account `recipient` be paid `amount` by
    /// account `sender`. The request starts, and stays, pending.
    pub fn request_money(&mut self, sender: u32, recipient: u32, amount: i64) -> (r: Result<
        (),
        LedgerError,
    >)
        ensures
            (r, final(self)@) == request_money_spec(old(self)@, sender, recipient, amount as int),
    {
        let si = self.account_position(sender);
        let ri = self.account_position(recipient);
        if si.is_none() || ri.is_none() {
            return Err(LedgerError::NotFound);
        }
        if amount <= 0 {
            return Err(LedgerError::InvalidAmount);
        }
        let ghost pre = self@;
        let request = MoneyRequest { sender, recipient, amount, status: "Pending".to_owned() };
        self.requests.push(request);
        assert(self@.requests =~= pre.requests.push(request@));
        Ok(())
    }

    /// Adds a bank with no accounts. An identifier already in use is not
    /// refused; lookups keep resolving it to the earlier bank.
    pub fn create_bank(&mut self, id: u32, name: String)
        ensures
            final(self)@ == create_bank_spec(old(self)@, id, name@),
    {
        let ghost pre = self@;
        let bank = Bank { id, name, accounts: Vec::new() };
        self.banks.push(bank);
        assert(self@.banks =~= create_bank_spec(pre, id, bank.name@).banks);
    }

    /// Adds a user with no accounts. An identifier already in use is not
    /// refused; lookups keep resolving it to the earlier user.
    pub fn create_user(&mut self, id: u32, name: String)
        ensures
            final(self)@ == create_user_spec(old(self)@, id, name@),
    {
        let ghost pre = self@;
        let user = User { id, name, accounts: Vec::new() };
        self.users.push(user);
        assert(self@.users =~= create_user_spec(pre, id, user.name@).users);
    }
    /// Opens account `account_id` at bank `bank_id`, owned by user `user_id`,
    /// with the given opening balance (any value is accepted).
    ///
    /// Both the bank and the user are looked up before anything changes; if
    /// either is missing the ledger is left as it was.
    pub fn open_account(
        &mut self,
        account_id: u32,
        bank_id: u32,
        user_id: u32,
        opening_balance: i64,
    ) -> (r: Result<(), LedgerError>)
        ensures
            (r, final(self)@) == open_account_spec(
                old(self)@,
                account_id,
                bank_id,
                user_id,
                opening_balance as int,
            ),
    {
        let bi = match self.bank_position(bank_id) {
            Some(bi) => bi,
            None => return Err(LedgerError::NotFound),
        };
        let ui = match self.user_position(user_id) {
            Some(ui) => ui,
            None => return Err(LedgerError::NotFound),
        };
        let ghost pre = self@;
        proof {
            lemma_first_bank_index(pre.banks, bank_id, bi as int);
            lemma_first_user_index(pre.users, user_id, ui as int);
        }
        self.banks[bi].accounts.push(account_id);
        self.users[ui].accounts.push(account_id);
        let account = Account {
            id: account_id,
            balance: opening_balance,
            bank_id,
            owners: vec![user_id],
        };
        self.accounts.push(account);
        let ghost post = open_account_spec(
            pre,
            account_id,
            bank_id,
            user_id,
            opening_balance as int,
        ).1;
        assert(account@.owners =~= seq![user_id]);
        assert(self@.banks =~= post.banks);
        assert(self@.users =~= post.users);
        assert(self@.accounts =~= post.accounts);
        assert(self@.requests =~= post.requests);
        Ok(())
    }

    /// The balance of the account that `account_id` resolves to.
    pub fn balance(&self, account_id: u32) -> (r: Option<i64>)
        ensures
            match find_account(self@.accounts, account_id) {
                Some(i) => r == Some(self@.accounts[i].balance as i64),
                None => r is None,
            },
    {
        match self.account_position(account_id) {
            Some(i) => Some(self.accounts[i].balance),
            None => None,
        }
    }

    /// Read-only views of the banks, users, accounts and money requests, each
    /// in order of creation. Taking a snapshot changes nothing.
    pub fn snapshot(&self) -> (r: (&[Bank], &[User], &[Account], &[MoneyRequest]))
        ensures
            models(r.0@) == self@.banks,
            models(r.1@) == self@.users,
            models(r.2@) == self@.accounts,
            models(r.3@) == self@.requests,
    {
        (
            self.banks.as_slice(),
            self.users.as_slice(),
            self.accounts.as_slice(),
            self.requests.as_slice(),
        )
    }
}

} // verus!
