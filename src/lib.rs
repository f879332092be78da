//! An in-memory multi-bank ledger: banks, users, accounts and pending money
//! requests, with verified deposit, withdraw and transfer operations.
//!
//! Money is held as a signed integer count of the currency's smallest unit
//! (for example cents), so that every balance change is exact.

mod laws;
mod model;
mod records;
mod system;

pub use records::{
    models, Account, AccountModel, Bank, BankModel, LedgerError, MoneyRequest, RequestModel, User,
    UserModel,
};
pub use model::{
    bank_index, create_bank_spec, create_user_spec, deposit_spec, empty_ledger, find_account,
    fits_i64, has_bank, has_user, is_first_account, is_first_bank, is_first_user,
    lemma_first_account_found, lemma_first_bank_index, lemma_first_user_index,
    open_account_spec, pending_status, request_money_spec, transfer_spec, user_index, well_formed,
    with_balance, withdraw_spec, LedgerModel,
};
pub use system::BankingSystem;
pub use laws::{
    apply_op, lemma_open_account_needs_bank_and_user, lemma_operations_keep_well_formed,
    lemma_runs_keep_nonnegative, lemma_snapshot_repeatable, lemma_transfer_conserves,
    lemma_transfer_failure_changes_nothing, lemma_transfer_keeps_nonnegative,
    lemma_withdraw_keeps_nonnegative, run_ops, LedgerOp,
};
