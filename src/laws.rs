use vstd::prelude::*;

use crate::model::{
    bank_index, is_first_bank, is_first_user, user_index, create_bank_spec, create_user_spec, deposit_spec, find_account, has_bank, has_user,
    open_account_spec, request_money_spec, transfer_spec, well_formed, withdraw_spec, LedgerModel,
};
use crate::records::{models, Account, Bank, BankModel, MoneyRequest, User, UserModel};

verus! {

/// A successful transfer takes exactly `amount` from the sender and gives
/// exactly `amount` to the recipient, so their combined balance is unchanged;
/// every other account is left alone.
pub proof fn lemma_transfer_conserves(m: LedgerModel, sender: u32, recipient: u32, amount: int)
    requires
        transfer_spec(m, sender, recipient, amount).0 is Ok,
    ensures
        ({
            let post = transfer_spec(m, sender, recipient, amount).1;
            let si = find_account(m.accounts, sender)->Some_0;
            let ri = find_account(m.accounts, recipient)->Some_0;
            &&& post.accounts.len() == m.accounts.len()
            &&& post.accounts[si].balance == m.accounts[si].balance - amount
            &&& post.accounts[ri].balance == m.accounts[ri].balance + amount
            &&& post.accounts[si].balance + post.accounts[ri].balance == m.accounts[si].balance
                + m.accounts[ri].balance
            &&& forall|k: int|
                0 <= k < m.accounts.len() && k != si && k != ri ==> post.accounts[k]
                    == m.accounts[k]
        }),
{
}

/// A refused transfer changes nothing: every balance, and the rest of the
/// ledger, is exactly as before the call.
pub proof fn lemma_transfer_failure_changes_nothing(
    m: LedgerModel,
    sender: u32,
    recipient: u32,
    amount: int,
)
    requires
        transfer_spec(m, sender, recipient, amount).0 is Err,
    ensures
        transfer_spec(m, sender, recipient, amount).1 == m,
{
}

/// A successful withdrawal never leaves the debited account below zero, and
/// no account that was at or above zero before the call is below zero after.
pub proof fn lemma_withdraw_keeps_nonnegative(m: LedgerModel, account_id: u32, amount: int)
    ensures
        ({
            let (r, post) = withdraw_spec(m, account_id, amount);
            &&& post.accounts.len() == m.accounts.len()
            &&& r is Ok ==> post.accounts[find_account(m.accounts, account_id)->Some_0].balance
                >= 0
            &&& forall|k: int|
                0 <= k < m.accounts.len() && m.accounts[k].balance >= 0 ==> #[trigger] post.accounts[k].balance
                    >= 0
        }),
{
}

/// A successful transfer never leaves the sender below zero, and no account
/// that was at or above zero before the call is below zero after.
pub proof fn lemma_transfer_keeps_nonnegative(
    m: LedgerModel,
    sender: u32,
    recipient: u32,
    amount: int,
)
    ensures
        ({
            let (r, post) = transfer_spec(m, sender, recipient, amount);
            &&& post.accounts.len() == m.accounts.len()
            &&& r is Ok ==> post.accounts[find_account(m.accounts, sender)->Some_0].balance >= 0
            &&& forall|k: int|
                0 <= k < m.accounts.len() && m.accounts[k].balance >= 0 ==> #[trigger] post.accounts[k].balance
                    >= 0
        }),
{
}

/// One step of a run of withdrawals and transfers.
pub enum LedgerOp {
    Withdraw { account: u32, amount: int },
    Transfer { sender: u32, recipient: u32, amount: int },
}

pub open spec fn apply_op(m: LedgerModel, op: LedgerOp) -> LedgerModel {
    match op {
        LedgerOp::Withdraw { account, amount } => withdraw_spec(m, account, amount).1,
        LedgerOp::Transfer { sender, recipient, amount } => transfer_spec(
            m,
            sender,
            recipient,
            amount,
        ).1,
    }
}

/// The ledger after applying `ops` in order, refused steps included.
pub open spec fn run_ops(m: LedgerModel, ops: Seq<LedgerOp>) -> LedgerModel
    decreases ops.len(),
{
    if ops.len() == 0 {
        m
    } else {
        run_ops(apply_op(m, ops[0]), ops.drop_first())
    }
}

/// Over any run of withdrawals and transfers, an account that starts at or
/// above zero is never driven below zero.
pub proof fn lemma_runs_keep_nonnegative(m: LedgerModel, ops: Seq<LedgerOp>, k: int)
    requires
        0 <= k < m.accounts.len(),
        m.accounts[k].balance >= 0,
    ensures
        run_ops(m, ops).accounts.len() == m.accounts.len(),
        run_ops(m, ops).accounts[k].balance >= 0,
    decreases ops.len(),
{
    if ops.len() > 0 {
        let next = apply_op(m, ops[0]);
        match ops[0] {
            LedgerOp::Withdraw { account, amount } => {
                lemma_withdraw_keeps_nonnegative(m, account, amount);
            },
            LedgerOp::Transfer { sender, recipient, amount } => {
                lemma_transfer_keeps_nonnegative(m, sender, recipient, amount);
            },
        }
        assert(next.accounts[k].balance >= 0);
        lemma_runs_keep_nonnegative(next, ops.drop_first(), k);
    }
}

/// An account is opened only when both the bank and the user it names
/// already exist; otherwise nothing changes.
pub proof fn lemma_open_account_needs_bank_and_user(
    m: LedgerModel,
    account_id: u32,
    bank_id: u32,
    user_id: u32,
    opening_balance: int,
)
    ensures
        ({
            let (r, post) = open_account_spec(m, account_id, bank_id, user_id, opening_balance);
            &&& r is Ok <==> (has_bank(m.banks, bank_id) && has_user(m.users, user_id))
            &&& r is Ok ==> post.accounts.len() == m.accounts.len() + 1
            &&& r is Err ==> post == m
        }),
{
}

/// Every operation keeps the ledger well formed: each account refers to an
/// existing bank and to a single existing owner.
pub proof fn lemma_operations_keep_well_formed(
    m: LedgerModel,
    a: u32,
    b: u32,
    c: u32,
    amount: int,
    name: Seq<char>,
)
    requires
        well_formed(m),
    ensures
        well_formed(create_bank_spec(m, a, name)),
        well_formed(create_user_spec(m, a, name)),
        well_formed(open_account_spec(m, a, b, c, amount).1),
        well_formed(transfer_spec(m, a, b, amount).1),
        well_formed(deposit_spec(m, a, amount).1),
        well_formed(withdraw_spec(m, a, amount).1),
        well_formed(request_money_spec(m, a, b, amount).1),
{
    let (r, opened) = open_account_spec(m, a, b, c, amount);
    if r is Ok {
        lemma_first_bank_exists(m.banks, b);
        lemma_first_user_exists(m.users, c);
        let bi = bank_index(m.banks, b);
        let ui = user_index(m.users, c);
        assert forall|k: int| 0 <= k < opened.accounts.len() implies {
            &&& has_bank(opened.banks, #[trigger] opened.accounts[k].bank_id)
            &&& opened.accounts[k].owners.len() == 1
            &&& has_user(opened.users, opened.accounts[k].owners[0])
        } by {
            if k < m.accounts.len() {
                let wb = choose|i: int| 0 <= i < m.banks.len() && m.banks[i].id == m.accounts[k].bank_id;
                assert(opened.banks[wb].id == m.accounts[k].bank_id);
                let wu = choose|i: int|
                    0 <= i < m.users.len() && m.users[i].id == m.accounts[k].owners[0];
                assert(opened.users[wu].id == m.accounts[k].owners[0]);
            } else {
                assert(opened.banks[bi].id == b);
                assert(opened.users[ui].id == c);
            }
        }
    }
    let with_bank = create_bank_spec(m, a, name);
    let with_user = create_user_spec(m, a, name);
    assert forall|k: int| 0 <= k < m.accounts.len() implies {
        &&& has_bank(with_bank.banks, #[trigger] m.accounts[k].bank_id)
        &&& has_user(with_user.users, m.accounts[k].owners[0])
    } by {
        let wb = choose|i: int| 0 <= i < m.banks.len() && m.banks[i].id == m.accounts[k].bank_id;
        assert(with_bank.banks[wb].id == m.accounts[k].bank_id);
        let wu = choose|i: int| 0 <= i < m.users.len() && m.users[i].id == m.accounts[k].owners[0];
        assert(with_user.users[wu].id == m.accounts[k].owners[0]);
    }
    lemma_balances_only_keep_well_formed(m, request_money_spec(m, a, b, amount).1);
    lemma_balances_only_keep_well_formed(m, transfer_spec(m, a, b, amount).1);
    lemma_balances_only_keep_well_formed(m, deposit_spec(m, a, amount).1);
    lemma_balances_only_keep_well_formed(m, withdraw_spec(m, a, amount).1);
}

/// A change that touches balances alone keeps the ledger well formed.
proof fn lemma_balances_only_keep_well_formed(m: LedgerModel, post: LedgerModel)
    requires
        well_formed(m),
        post.banks == m.banks,
        post.users == m.users,
        post.accounts.len() == m.accounts.len(),
        forall|k: int|
            0 <= k < m.accounts.len() ==> (#[trigger] post.accounts[k]).bank_id
                == m.accounts[k].bank_id && post.accounts[k].owners == m.accounts[k].owners,
    ensures
        well_formed(post),
{
    assert forall|k: int| 0 <= k < post.accounts.len() implies {
        &&& has_bank(post.banks, #[trigger] post.accounts[k].bank_id)
        &&& post.accounts[k].owners.len() == 1
        &&& has_user(post.users, post.accounts[k].owners[0])
    } by {
        assert(has_bank(m.banks, m.accounts[k].bank_id));
    }
}

/// An identifier that some bank carries has a first bank carrying it.
proof fn lemma_first_bank_exists(banks: Seq<BankModel>, id: u32)
    requires
        has_bank(banks, id),
    ensures
        is_first_bank(banks, id, bank_index(banks, id)),
{
    let i = choose|i: int| 0 <= i < banks.len() && banks[i].id == id;
    let f = first_bank_from(banks, id, i);
    assert(is_first_bank(banks, id, f));
}

proof fn first_bank_from(banks: Seq<BankModel>, id: u32, i: int) -> (f: int)
    requires
        0 <= i < banks.len(),
        banks[i].id == id,
    ensures
        is_first_bank(banks, id, f),
    decreases i,
{
    if exists|j: int| 0 <= j < i && banks[j].id == id {
        let j = choose|j: int| 0 <= j < i && banks[j].id == id;
        first_bank_from(banks, id, j)
    } else {
        i
    }
}

/// An identifier that some user carries has a first user carrying it.
proof fn lemma_first_user_exists(users: Seq<UserModel>, id: u32)
    requires
        has_user(users, id),
    ensures
        is_first_user(users, id, user_index(users, id)),
{
    let i = choose|i: int| 0 <= i < users.len() && users[i].id == id;
    let f = first_user_from(users, id, i);
    assert(is_first_user(users, id, f));
}

proof fn first_user_from(users: Seq<UserModel>, id: u32, i: int) -> (f: int)
    requires
        0 <= i < users.len(),
        users[i].id == id,
    ensures
        is_first_user(users, id, f),
    decreases i,
{
    if exists|j: int| 0 <= j < i && users[j].id == id {
        let j = choose|j: int| 0 <= j < i && users[j].id == id;
        first_user_from(users, id, j)
    } else {
        i
    }
}

/// Two snapshots of the same ledger, with no change in between, are equal.
pub proof fn lemma_snapshot_repeatable(
    m: LedgerModel,
    first: (Seq<Bank>, Seq<User>, Seq<Account>, Seq<MoneyRequest>),
    second: (Seq<Bank>, Seq<User>, Seq<Account>, Seq<MoneyRequest>),
)
    requires
        models(first.0) == m.banks && models(first.1) == m.users,
        models(first.2) == m.accounts && models(first.3) == m.requests,
        models(second.0) == m.banks && models(second.1) == m.users,
        models(second.2) == m.accounts && models(second.3) == m.requests,
    ensures
        models(first.0) == models(second.0),
        models(first.1) == models(second.1),
        models(first.2) == models(second.2),
        models(first.3) == models(second.3),
{
}

} // verus!
