use bomanis_bank::account::MoneyAccountType;
use bomanis_bank::database::DatabaseHandler;
use bomanis_bank::date::Date;

fn sample_date() -> Date {
    Date { year: 1990, month: 5, day: 17 }
}

#[test]
fn owner_account_creation_and_lookup() {
    let mut db = DatabaseHandler::new();
    let id = db.make_new_bank_account(
        String::from("Ada"),
        sample_date(),
        String::from("ada"),
        String::from("pw"),
    );
    assert!(id < 999999);
    assert!(db.check_if_bank_account_id_exists(id));
    let owner = db.get_bank_account_with_id_u32(id).unwrap();
    assert_eq!(owner.id, id);
    assert_eq!(owner.name, "Ada");
    assert_eq!(owner.userid, "ada");
    assert!(owner.accounts.is_empty());
}

#[test]
fn owner_lookup_misses_unknown_id() {
    let db = DatabaseHandler::new();
    assert!(!db.check_if_bank_account_id_exists(123));
    assert!(db.get_bank_account_with_id_u32(123).is_err());
}

#[test]
fn owner_lookup_by_textual_id() {
    let mut db = DatabaseHandler::new();
    let id = db.make_new_bank_account(
        String::from("Ada"),
        sample_date(),
        String::from("ada"),
        String::from("pw"),
    );
    let text = format!("{}", id);
    assert_eq!(db.get_bank_account_with_id_string(text).unwrap().id, id);
    let plus = format!("+{}", id);
    assert_eq!(db.get_bank_account_with_id_string(plus).unwrap().id, id);
    assert!(db.get_bank_account_with_id_string(String::from("nonsense")).is_err());
    assert!(db.get_bank_account_with_id_string(String::from("")).is_err());
    assert!(db.get_bank_account_with_id_string(String::from("-4")).is_err());
    assert!(db.get_bank_account_with_id_string(String::from("5000000000")).is_err());
}

#[test]
fn owner_ids_are_distinct() {
    let mut db = DatabaseHandler::new();
    let mut ids = Vec::new();
    for k in 0..20 {
        let id = db.make_new_bank_account(
            format!("Owner {}", k),
            sample_date(),
            format!("user{}", k),
            String::from("pw"),
        );
        ids.push(id);
    }
    for i in 0..ids.len() {
        for j in 0..ids.len() {
            if i != j {
                assert_ne!(ids[i], ids[j]);
            }
        }
    }
}

#[test]
fn find_owner_by_username() {
    let mut db = DatabaseHandler::new();
    let a = db.make_new_bank_account(
        String::from("Ada"),
        sample_date(),
        String::from("ada"),
        String::from("pw"),
    );
    let b = db.make_new_bank_account(
        String::from("Bob"),
        sample_date(),
        String::from("bob"),
        String::from("pw"),
    );
    assert_eq!(db.find_bank_account_with_user_id("ada").unwrap().id, a);
    assert_eq!(db.find_bank_account_with_user_id("bob").unwrap().id, b);
    assert!(db.find_bank_account_with_user_id("carol").is_none());
    assert!(db.find_bank_account_with_user_id("ad").is_none());
}

#[test]
fn ledger_account_creation_registers_everywhere() {
    let mut db = DatabaseHandler::new();
    let owner_id = db.make_new_bank_account(
        String::from("Ada"),
        sample_date(),
        String::from("ada"),
        String::from("pw"),
    );
    let m = db.make_new_money_account(owner_id, String::from("daily"), MoneyAccountType::Checking);
    assert!(m < 999999);
    assert!(db.check_if_money_account_id_exists(m));
    let acc = db.get_money_account_with_id_u32(m).unwrap();
    assert_eq!(acc.id, m);
    assert_eq!(acc.name, "daily");
    assert_eq!(acc.balance, 0);
    assert!(!acc.can_overdraft);
    assert_eq!(acc.linked_bank_account, owner_id);
    let owner = db.get_bank_account_with_id_u32(owner_id).unwrap();
    assert_eq!(owner.accounts.len(), 1);
    assert_eq!(owner.get_associated_money_account(m).unwrap().id, m);
    assert!(owner.get_associated_money_account(m + 1).is_none());
}

#[test]
fn ledger_ids_are_distinct_across_owners() {
    let mut db = DatabaseHandler::new();
    let a = db.make_new_bank_account(
        String::from("Ada"),
        sample_date(),
        String::from("ada"),
        String::from("pw"),
    );
    let b = db.make_new_bank_account(
        String::from("Bob"),
        sample_date(),
        String::from("bob"),
        String::from("pw"),
    );
    let mut ids = Vec::new();
    for k in 0..10 {
        let owner = if k % 2 == 0 { a } else { b };
        let kind = if k % 3 == 0 { MoneyAccountType::Savings } else { MoneyAccountType::Checking };
        ids.push(db.make_new_money_account(owner, format!("acct {}", k), kind));
    }
    for i in 0..ids.len() {
        for j in 0..ids.len() {
            if i != j {
                assert_ne!(ids[i], ids[j]);
            }
        }
    }
}

#[test]
fn ledger_lookup_by_textual_id_and_bulk_lookup() {
    let mut db = DatabaseHandler::new();
    let owner_id = db.make_new_bank_account(
        String::from("Ada"),
        sample_date(),
        String::from("ada"),
        String::from("pw"),
    );
    let m1 = db.make_new_money_account(owner_id, String::from("one"), MoneyAccountType::Checking);
    let m2 = db.make_new_money_account(owner_id, String::from("two"), MoneyAccountType::Savings);
    assert_eq!(db.get_money_account_with_id_string(format!("{}", m1)).unwrap().id, m1);
    assert!(db.get_money_account_with_id_string(String::from("x")).is_none());
    let missing = if m1.max(m2) < 999998 { m1.max(m2) + 1 } else { 0 };
    let got = db.get_money_accounts_with_ids(vec![m1, missing, m2]);
    assert_eq!(got.len(), 2);
    assert_eq!(got[0].id, m1);
    assert_eq!(got[1].id, m2);
}

#[test]
fn repository_balance_operations() {
    let mut db = DatabaseHandler::new();
    let owner_id = db.make_new_bank_account(
        String::from("Ada"),
        sample_date(),
        String::from("ada"),
        String::from("pw"),
    );
    let m = db.make_new_money_account(owner_id, String::from("daily"), MoneyAccountType::Checking);
    assert_eq!(db.deposit_to_account(m, 100), Ok(100));
    assert_eq!(db.withdraw_from_account(m, 30), Ok(70));
    assert_eq!(
        db.withdraw_from_account(m, 71),
        Err(bomanis_bank::errors::BalanceError::NotEnough)
    );
    assert_eq!(db.get_money_account_with_id_u32(m).unwrap().balance, 70);
    assert_eq!(db.set_account_balance(m, -5), Ok(-5));
    assert_eq!(db.get_money_account_with_id_u32(m).unwrap().balance, -5);
}
