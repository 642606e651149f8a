use bomanis_bank::account::{MoneyAccount, MoneyAccountType};
use bomanis_bank::errors::BalanceError;

fn fresh_account(can_overdraft: bool) -> MoneyAccount {
    MoneyAccount {
        linked_bank_account: 7,
        account_type: MoneyAccountType::Checking,
        id: 42,
        name: String::from("daily"),
        balance: 0,
        can_overdraft,
    }
}

#[test]
fn deposit_then_withdraw_same_amount_returns_to_zero() {
    let mut acc = fresh_account(false);
    assert_eq!(acc.add_balance(250), Ok(250));
    assert_eq!(acc.subtract_balance(250), Ok(0));
    assert_eq!(acc.get_balance(), 0);
}

#[test]
fn deposit_then_withdraw_negative_amount_returns_to_zero() {
    let mut acc = fresh_account(false);
    assert_eq!(acc.add_balance(-30), Ok(-30));
    assert_eq!(acc.subtract_balance(-30), Ok(0));
    assert_eq!(acc.get_balance(), 0);
}

#[test]
fn withdrawal_that_would_go_negative_fails_and_leaves_balance() {
    let mut acc = fresh_account(false);
    assert_eq!(acc.add_balance(50), Ok(50));
    assert_eq!(acc.subtract_balance(60), Err(BalanceError::NotEnough));
    assert_eq!(acc.get_balance(), 50);
    assert_eq!(acc.subtract_balance(50), Ok(0));
}

#[test]
fn withdrawal_to_exactly_zero_succeeds() {
    let mut acc = fresh_account(false);
    assert_eq!(acc.add_balance(10), Ok(10));
    assert_eq!(acc.subtract_balance(10), Ok(0));
}

#[test]
fn overdraft_enabled_allows_negative_balance_on_withdrawal() {
    let mut acc = fresh_account(true);
    assert_eq!(acc.subtract_balance(75), Ok(-75));
    assert_eq!(acc.get_balance(), -75);
}

#[test]
fn negative_deposit_is_accepted_unconditionally() {
    let mut acc = fresh_account(false);
    assert_eq!(acc.add_balance(-40), Ok(-40));
    assert_eq!(acc.get_balance(), -40);
}

#[test]
fn withdrawing_negative_amount_raises_balance() {
    let mut acc = fresh_account(false);
    assert_eq!(acc.subtract_balance(-15), Ok(15));
    assert_eq!(acc.get_balance(), 15);
}

#[test]
fn set_balance_bypasses_overdraft_check() {
    let mut acc = fresh_account(false);
    assert_eq!(acc.set_balance(-500), Ok(-500));
    assert_eq!(acc.get_balance(), -500);
}

#[test]
fn account_kind_display_names() {
    let mut acc = fresh_account(false);
    assert_eq!(acc.get_str(), "Checkings Account");
    acc.account_type = MoneyAccountType::Savings;
    assert_eq!(acc.get_str(), "Savings Account");
}

#[test]
fn account_number_and_owner_reference_are_exposed() {
    let acc = fresh_account(false);
    assert_eq!(acc.get_account_number(), 42);
    assert_eq!(acc.get_bank_account(), 7);
}

#[test]
fn balance_error_descriptions() {
    assert_eq!(BalanceError::NotEnough.as_str(), "Not enough balance");
    assert_eq!(BalanceError::Locked.as_str(), "Bank account is locked");
    assert_eq!(BalanceError::Unknown.as_str(), "Unknown error");
}
