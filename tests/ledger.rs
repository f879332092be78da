use banking::{BankingSystem, LedgerError};

// Amounts are in hundredths of the currency unit: 100.0 is 10_000.

fn setup() -> BankingSystem {
    let mut s = BankingSystem::new();
    s.create_bank(1, "B1".to_string());
    s.create_user(1, "U1".to_string());
    assert_eq!(s.open_account(10, 1, 1, 10_000), Ok(()));
    assert_eq!(s.open_account(20, 1, 1, 0), Ok(()));
    s
}

#[test]
fn open_account_with_existing_bank_and_user() {
    let mut s = BankingSystem::new();
    s.create_bank(1, "B1".to_string());
    s.create_user(1, "U1".to_string());
    assert_eq!(s.open_account(10, 1, 1, 10_000), Ok(()));
    assert_eq!(s.balance(10), Some(10_000));
    let (banks, users, accounts, _) = s.snapshot();
    assert_eq!(banks[0].accounts, vec![10]);
    assert_eq!(users[0].accounts, vec![10]);
    assert_eq!(accounts.len(), 1);
    assert_eq!(accounts[0].bank_id, 1);
    assert_eq!(accounts[0].owners, vec![1]);
}

#[test]
fn open_account_with_missing_bank_fails() {
    let mut s = BankingSystem::new();
    s.create_bank(1, "B1".to_string());
    s.create_user(1, "U1".to_string());
    assert_eq!(s.open_account(11, 99, 1, 5_000), Err(LedgerError::NotFound));
    assert_eq!(s.balance(11), None);
    let (banks, users, accounts, _) = s.snapshot();
    assert!(accounts.is_empty());
    assert!(banks[0].accounts.is_empty());
    assert!(users[0].accounts.is_empty());
}

#[test]
fn open_account_with_missing_user_fails() {
    let mut s = BankingSystem::new();
    s.create_bank(1, "B1".to_string());
    assert_eq!(s.open_account(11, 1, 7, 5_000), Err(LedgerError::NotFound));
    let (banks, _, accounts, _) = s.snapshot();
    assert!(accounts.is_empty());
    assert!(banks[0].accounts.is_empty());
}

#[test]
fn open_account_accepts_negative_opening_balance() {
    let mut s = BankingSystem::new();
    s.create_bank(1, "B1".to_string());
    s.create_user(1, "U1".to_string());
    assert_eq!(s.open_account(10, 1, 1, -250), Ok(()));
    assert_eq!(s.balance(10), Some(-250));
}

#[test]
fn transfer_moves_funds() {
    let mut s = setup();
    assert_eq!(s.transfer(10, 20, 4_000), Ok(()));
    assert_eq!(s.balance(10), Some(6_000));
    assert_eq!(s.balance(20), Some(4_000));
}

#[test]
fn transfer_conserves_sum() {
    let mut s = setup();
    assert_eq!(s.deposit(20, 1_234), Ok(()));
    let before = s.balance(10).unwrap() + s.balance(20).unwrap();
    assert_eq!(s.transfer(20, 10, 1_000), Ok(()));
    assert_eq!(s.balance(10), Some(11_000));
    assert_eq!(s.balance(20), Some(234));
    assert_eq!(s.balance(10).unwrap() + s.balance(20).unwrap(), before);
}

#[test]
fn transfer_to_same_account_fails() {
    let mut s = setup();
    assert_eq!(s.transfer(10, 10, 500), Err(LedgerError::SameAccount));
    assert_eq!(s.transfer(20, 20, 1_000_000), Err(LedgerError::SameAccount));
    assert_eq!(s.balance(10), Some(10_000));
}

#[test]
fn transfer_insufficient_funds_changes_nothing() {
    let mut s = setup();
    assert_eq!(s.transfer(10, 20, 100_000), Err(LedgerError::InsufficientFunds));
    assert_eq!(s.balance(10), Some(10_000));
    assert_eq!(s.balance(20), Some(0));
}

#[test]
fn transfer_non_positive_amount_fails() {
    let mut s = setup();
    assert_eq!(s.transfer(10, 20, 0), Err(LedgerError::InvalidAmount));
    assert_eq!(s.transfer(10, 20, -5), Err(LedgerError::InvalidAmount));
    assert_eq!(s.balance(10), Some(10_000));
    assert_eq!(s.balance(20), Some(0));
}

#[test]
fn transfer_balance_check_comes_before_amount_check() {
    let mut s = BankingSystem::new();
    s.create_bank(1, "B1".to_string());
    s.create_user(1, "U1".to_string());
    assert_eq!(s.open_account(10, 1, 1, -100), Ok(()));
    assert_eq!(s.open_account(20, 1, 1, 0), Ok(()));
    assert_eq!(s.transfer(10, 20, -5), Err(LedgerError::InsufficientFunds));
    assert_eq!(s.balance(10), Some(-100));
}

#[test]
fn transfer_unknown_account_fails() {
    let mut s = setup();
    assert_eq!(s.transfer(10, 99, 100), Err(LedgerError::NotFound));
    assert_eq!(s.transfer(99, 10, 100), Err(LedgerError::NotFound));
    assert_eq!(s.transfer(98, 98, 100), Err(LedgerError::NotFound));
    assert_eq!(s.balance(10), Some(10_000));
}

#[test]
fn transfer_overflowing_recipient_fails() {
    let mut s = BankingSystem::new();
    s.create_bank(1, "B1".to_string());
    s.create_user(1, "U1".to_string());
    assert_eq!(s.open_account(10, 1, 1, 10), Ok(()));
    assert_eq!(s.open_account(20, 1, 1, i64::MAX - 5), Ok(()));
    assert_eq!(s.transfer(10, 20, 6), Err(LedgerError::Overflow));
    assert_eq!(s.balance(10), Some(10));
    assert_eq!(s.balance(20), Some(i64::MAX - 5));
    assert_eq!(s.transfer(10, 20, 5), Ok(()));
    assert_eq!(s.balance(20), Some(i64::MAX));
}

#[test]
fn transfer_of_whole_balance_leaves_zero() {
    let mut s = setup();
    assert_eq!(s.transfer(10, 20, 10_000), Ok(()));
    assert_eq!(s.balance(10), Some(0));
    assert_eq!(s.balance(20), Some(10_000));
}

#[test]
fn withdraw_negative_amount_fails() {
    let mut s = setup();
    assert_eq!(s.withdraw(10, -500), Err(LedgerError::InvalidAmount));
    assert_eq!(s.balance(10), Some(10_000));
}

#[test]
fn withdraw_reduces_balance() {
    let mut s = setup();
    assert_eq!(s.withdraw(10, 2_500), Ok(()));
    assert_eq!(s.balance(10), Some(7_500));
}

#[test]
fn withdraw_errors() {
    let mut s = setup();
    assert_eq!(s.withdraw(10, 0), Err(LedgerError::InvalidAmount));
    assert_eq!(s.withdraw(99, 5), Err(LedgerError::NotFound));
    assert_eq!(s.withdraw(99, -5), Err(LedgerError::InvalidAmount));
    assert_eq!(s.withdraw(10, 10_001), Err(LedgerError::InsufficientFunds));
    assert_eq!(s.balance(10), Some(10_000));
}

#[test]
fn withdraw_never_goes_negative() {
    let mut s = setup();
    let ops: [(u32, i64); 5] = [(10, 3_000), (10, 8_000), (20, 1), (10, 7_000), (10, 1)];
    for (id, amount) in ops {
        let _ = s.withdraw(id, amount);
        let _ = s.transfer(10, 20, amount);
        let _ = s.transfer(20, 10, amount / 2);
        assert!(s.balance(10).unwrap() >= 0);
        assert!(s.balance(20).unwrap() >= 0);
    }
}

#[test]
fn deposit_adds_to_balance() {
    let mut s = setup();
    assert_eq!(s.deposit(20, 750), Ok(()));
    assert_eq!(s.balance(20), Some(750));
}

#[test]
fn deposit_errors() {
    let mut s = setup();
    assert_eq!(s.deposit(10, 0), Err(LedgerError::InvalidAmount));
    assert_eq!(s.deposit(99, -1), Err(LedgerError::InvalidAmount));
    assert_eq!(s.deposit(99, 1), Err(LedgerError::NotFound));
    assert_eq!(s.deposit(10, i64::MAX), Err(LedgerError::Overflow));
    assert_eq!(s.balance(10), Some(10_000));
}

#[test]
fn request_money_records_pending_request() {
    let mut s = setup();
    assert_eq!(s.request_money(10, 20, 300), Ok(()));
    let (_, _, _, requests) = s.snapshot();
    assert_eq!(requests.len(), 1);
    assert_eq!(requests[0].sender, 10);
    assert_eq!(requests[0].recipient, 20);
    assert_eq!(requests[0].amount, 300);
    assert_eq!(requests[0].status, "Pending");
    assert_eq!(s.balance(10), Some(10_000));
    assert_eq!(s.balance(20), Some(0));
}

#[test]
fn request_money_errors() {
    let mut s = setup();
    assert_eq!(s.request_money(10, 99, 300), Err(LedgerError::NotFound));
    assert_eq!(s.request_money(99, 10, -3), Err(LedgerError::NotFound));
    assert_eq!(s.request_money(10, 20, 0), Err(LedgerError::InvalidAmount));
    assert!(s.snapshot().3.is_empty());
}

#[test]
fn duplicate_identifiers_resolve_to_first() {
    let mut s = BankingSystem::new();
    s.create_bank(1, "First".to_string());
    s.create_bank(1, "Second".to_string());
    s.create_user(1, "U1".to_string());
    assert_eq!(s.open_account(10, 1, 1, 100), Ok(()));
    assert_eq!(s.open_account(10, 1, 1, 900), Ok(()));
    assert_eq!(s.balance(10), Some(100));
    assert_eq!(s.deposit(10, 1), Ok(()));
    let (banks, _, accounts, _) = s.snapshot();
    assert_eq!(banks.len(), 2);
    assert_eq!(banks[0].accounts, vec![10, 10]);
    assert!(banks[1].accounts.is_empty());
    assert_eq!(accounts[0].balance, 101);
    assert_eq!(accounts[1].balance, 900);
}

#[test]
fn snapshot_is_repeatable() {
    let mut s = setup();
    assert_eq!(s.request_money(20, 10, 50), Ok(()));
    let first: Vec<(u32, i64)> = s.snapshot().2.iter().map(|a| (a.id, a.balance)).collect();
    let second: Vec<(u32, i64)> = s.snapshot().2.iter().map(|a| (a.id, a.balance)).collect();
    assert_eq!(first, second);
    let (b1, u1, _, r1) = s.snapshot();
    let (b2, u2, _, r2) = s.snapshot();
    assert_eq!(b1.len(), b2.len());
    assert_eq!(u1[0].name, u2[0].name);
    assert_eq!(r1[0].amount, r2[0].amount);
}

#[test]
fn new_ledger_is_empty() {
    let s = BankingSystem::new();
    let (banks, users, accounts, requests) = s.snapshot();
    assert!(banks.is_empty() && users.is_empty() && accounts.is_empty() && requests.is_empty());
    assert_eq!(s.balance(0), None);
}
