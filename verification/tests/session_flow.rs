use bomanis_bank::account::{MoneyAccountType, UserActions};
use bomanis_bank::errors::{BalanceError, SessionError};
use bomanis_bank::session::{actions_for_flags, select_action, Session};

fn registered_session() -> (Session, u32) {
    let mut session = Session::new();
    let id = session
        .make_account_process(
            String::from("ada"),
            String::from("pw"),
            String::from("Ada"),
            "1990-05-17",
        )
        .unwrap();
    (session, id)
}

#[test]
fn registration_rejects_duplicate_username() {
    let (mut session, first) = registered_session();
    let again = session.make_account_process(
        String::from("ada"),
        String::from("other"),
        String::from("Imposter"),
        "1980-01-01",
    );
    assert!(again.is_none());
    let other = session.make_account_process(
        String::from("bob"),
        String::from("pw"),
        String::from("Bob"),
        "1980-01-01",
    );
    assert!(other.is_some());
    assert_ne!(other.unwrap(), first);
}

#[test]
fn registration_rejects_bad_date_of_birth() {
    let mut session = Session::new();
    assert!(session
        .make_account_process(
            String::from("ada"),
            String::from("pw"),
            String::from("Ada"),
            "17-05-1990",
        )
        .is_none());
    assert!(session
        .make_account_process(
            String::from("ada"),
            String::from("pw"),
            String::from("Ada"),
            "1990-02-30",
        )
        .is_none());
}

#[test]
fn login_matches_username_and_ignores_password() {
    let (mut session, id) = registered_session();
    session.logout();
    assert!(session.login_attempt("ada", "completely-wrong-password"));
    assert_eq!(session.bank_account_for_session(), id);
    session.logout();
    assert!(!session.login_attempt("nobody", "pw"));
}

#[test]
fn menu_for_owner_with_no_ledger_accounts() {
    let (session, _) = registered_session();
    let actions = session.get_valid_actions();
    assert_eq!(
        actions,
        vec![UserActions::CreateCheckings, UserActions::CreateSavings, UserActions::Logout]
    );
}

#[test]
fn menu_for_savings_only_with_zero_balance() {
    let (mut session, _) = registered_session();
    session.action_create_money_account(String::from("nest egg"), MoneyAccountType::Savings);
    let actions = session.get_valid_actions();
    assert_eq!(
        actions,
        vec![
            UserActions::Deposit,
            UserActions::ShowBalance,
            UserActions::CreateCheckings,
            UserActions::Logout
        ]
    );
}

#[test]
fn menu_for_checking_with_positive_balance() {
    let (mut session, _) = registered_session();
    let m = session.action_create_money_account(String::from("daily"), MoneyAccountType::Checking);
    assert_eq!(session.action_deposit(m, 100), Ok(100));
    let actions = session.get_valid_actions();
    assert_eq!(
        actions,
        vec![
            UserActions::Deposit,
            UserActions::ShowBalance,
            UserActions::Withdraw,
            UserActions::CreateSavings,
            UserActions::Logout
        ]
    );
}

#[test]
fn menu_is_a_pure_function_of_the_flags() {
    assert_eq!(
        actions_for_flags(false, false, false),
        vec![UserActions::CreateCheckings, UserActions::CreateSavings, UserActions::Logout]
    );
    assert_eq!(
        actions_for_flags(false, true, false),
        vec![
            UserActions::Deposit,
            UserActions::ShowBalance,
            UserActions::CreateCheckings,
            UserActions::Logout
        ]
    );
    assert_eq!(
        actions_for_flags(true, false, true),
        vec![
            UserActions::Deposit,
            UserActions::ShowBalance,
            UserActions::Withdraw,
            UserActions::CreateSavings,
            UserActions::Logout
        ]
    );
    assert_eq!(
        actions_for_flags(true, true, true),
        vec![
            UserActions::Deposit,
            UserActions::ShowBalance,
            UserActions::Withdraw,
            UserActions::Logout
        ]
    );
}

#[test]
fn deposit_then_withdraw_round_trip_through_session() {
    let (mut session, _) = registered_session();
    let m = session.action_create_money_account(String::from("daily"), MoneyAccountType::Checking);
    assert_eq!(session.action_show_balance(m), 0);
    assert_eq!(session.action_deposit(m, 345), Ok(345));
    assert_eq!(session.action_withdraw(m, 345), Ok(0));
    assert_eq!(session.action_show_balance(m), 0);
}

#[test]
fn withdrawal_past_zero_is_refused_through_session() {
    let (mut session, _) = registered_session();
    let m = session.action_create_money_account(String::from("daily"), MoneyAccountType::Checking);
    assert_eq!(session.action_deposit(m, 20), Ok(20));
    assert_eq!(session.action_withdraw(m, 21), Err(BalanceError::NotEnough));
    assert_eq!(session.action_show_balance(m), 20);
}

#[test]
fn direct_set_of_negative_balance_is_visible_to_show_balance() {
    let (mut session, _) = registered_session();
    let m = session.action_create_money_account(String::from("daily"), MoneyAccountType::Checking);
    assert_eq!(session.action_set_balance(m, -75), Ok(-75));
    assert_eq!(session.action_show_balance(m), -75);
    assert_eq!(session.action_withdraw(m, 1), Err(BalanceError::NotEnough));
    assert_eq!(session.action_show_balance(m), -75);
}

#[test]
fn selectable_accounts_list_in_creation_order() {
    let (mut session, _) = registered_session();
    let m1 = session.action_create_money_account(String::from("one"), MoneyAccountType::Checking);
    let m2 = session.action_create_money_account(String::from("two"), MoneyAccountType::Savings);
    assert_eq!(session.selectable_accounts(), vec![m1, m2]);
}

#[test]
fn select_action_uses_one_based_numbering_with_zero_invalid() {
    let actions = actions_for_flags(false, false, false);
    assert_eq!(select_action(&actions, 0), None);
    assert_eq!(select_action(&actions, -3), None);
    assert_eq!(select_action(&actions, 1), Some(UserActions::CreateCheckings));
    assert_eq!(select_action(&actions, 3), Some(UserActions::Logout));
    assert_eq!(select_action(&actions, 4), None);
}

#[test]
fn logout_clears_binding_but_keeps_accounts() {
    let (mut session, id) = registered_session();
    session.logout();
    assert!(session.login_attempt("ada", "pw"));
    assert_eq!(session.bank_account_for_session(), id);
}

#[test]
fn session_error_descriptions() {
    assert_eq!(SessionError::FailedLogin.as_str(), "Login failed too many times!");
    assert_eq!(SessionError::LockedAccount.as_str(), "Bank account is locked!");
    assert_eq!(SessionError::Unknown.as_str(), "Unknown error");
}

#[test]
fn user_action_descriptions() {
    assert_eq!(UserActions::Deposit.description(), "Deposit money");
    assert_eq!(UserActions::Withdraw.description(), "Withdraw money");
    assert_eq!(UserActions::ShowBalance.description(), "Show balance");
    assert_eq!(UserActions::CreateSavings.description(), "Create savings account");
    assert_eq!(UserActions::CreateCheckings.description(), "Create checkings account");
    assert_eq!(UserActions::Logout.description(), "Logout");
    assert_eq!(UserActions::Exit.description(), "Exit");
}
