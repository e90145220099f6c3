use creator_economy::bank::{Bank, BankError};

#[test]
fn deposits_grow_balance_and_issuance_together() {
    let mut bank = Bank::new();
    assert_eq!(bank.free_balance(5, 1), 0);
    assert_eq!(bank.total_issuance(5), 0);
    bank.deposit(5, 1, 100).unwrap();
    bank.deposit(5, 2, 40).unwrap();
    assert_eq!(bank.free_balance(5, 1), 100);
    assert_eq!(bank.free_balance(5, 2), 40);
    assert_eq!(bank.total_issuance(5), 140);
    // a different currency is untouched
    assert_eq!(bank.total_issuance(6), 0);
}

#[test]
fn deposit_overflow_changes_nothing() {
    let mut bank = Bank::new();
    bank.deposit(5, 1, u128::MAX).unwrap();
    let r = bank.deposit(5, 2, 1);
    assert_eq!(r, Err(BankError::Overflow));
    assert_eq!(bank.free_balance(5, 2), 0);
    assert_eq!(bank.total_issuance(5), u128::MAX);
}

#[test]
fn withdraw_burns_balance_and_issuance() {
    let mut bank = Bank::new();
    bank.deposit(5, 1, 100).unwrap();
    bank.withdraw(5, 1, 30).unwrap();
    assert_eq!(bank.free_balance(5, 1), 70);
    assert_eq!(bank.total_issuance(5), 70);
    let r = bank.withdraw(5, 1, 71);
    assert_eq!(r, Err(BankError::InsufficientBalance));
    assert_eq!(bank.free_balance(5, 1), 70);
}

#[test]
fn transfer_moves_funds_without_touching_issuance() {
    let mut bank = Bank::new();
    bank.deposit(0, 1, 100).unwrap();
    bank.transfer(0, 1, 2, 60).unwrap();
    assert_eq!(bank.free_balance(0, 1), 40);
    assert_eq!(bank.free_balance(0, 2), 60);
    assert_eq!(bank.total_issuance(0), 100);
    let r = bank.transfer(0, 1, 2, 41);
    assert_eq!(r, Err(BankError::InsufficientBalance));
    assert_eq!(bank.free_balance(0, 1), 40);
}

#[test]
fn transfer_to_oneself_is_a_funded_no_op() {
    let mut bank = Bank::new();
    bank.deposit(0, 1, 10).unwrap();
    bank.transfer(0, 1, 1, 10).unwrap();
    assert_eq!(bank.free_balance(0, 1), 10);
    let r = bank.transfer(0, 1, 1, 11);
    assert_eq!(r, Err(BankError::InsufficientBalance));
}

#[test]
fn a_full_range_of_units_can_still_move() {
    // a credited balance can never overflow through the ledger itself,
    // because the total issuance of a currency is capped first
    let mut bank = Bank::new();
    bank.deposit(0, 1, u128::MAX).unwrap();
    assert_eq!(bank.deposit(0, 2, 1), Err(BankError::Overflow));
    bank.transfer(0, 1, 2, u128::MAX).unwrap();
    assert_eq!(bank.free_balance(0, 1), 0);
    assert_eq!(bank.free_balance(0, 2), u128::MAX);
    assert_eq!(bank.total_issuance(0), u128::MAX);
}

#[test]
fn can_reserve_checks_the_free_balance() {
    let mut bank = Bank::new();
    bank.deposit(0, 1, 100).unwrap();
    assert!(bank.can_reserve(0, 1, 100));
    assert!(!bank.can_reserve(0, 1, 101));
}
