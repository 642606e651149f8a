//! The session: binds an operator to at most one owner account, drives
//! authentication and registration against the repository, and computes
//! which actions are legal in the current state. The interactive loop
//! around it only reads lines, shows menus and dispatches; every decision
//! it acts on is taken here.

use vstd::prelude::*;

use crate::account::{MoneyAccount, MoneyAccountType, UserActions};
use crate::account::{spec_deposit, spec_withdraw, spec_withdraw_blocked};
use crate::database::{spec_balance_set, DatabaseHandler};
use crate::date::{parse_date, parses_to_valid_date, dob_day, dob_month, dob_year};
use crate::errors::BalanceError;

verus! {

/// Whether some account in the collection is a checking account.
pub open spec fn spec_has_checking(accounts: Seq<MoneyAccount>) -> bool {
    exists|i: int| 0 <= i < accounts.len() && (#[trigger] accounts[i]).account_type is Checking
}

/// Whether some account in the collection is a savings account.
pub open spec fn spec_has_savings(accounts: Seq<MoneyAccount>) -> bool {
    exists|i: int| 0 <= i < accounts.len() && (#[trigger] accounts[i]).account_type is Savings
}

/// Whether some account in the collection holds a positive balance.
pub open spec fn spec_has_positive_balance(accounts: Seq<MoneyAccount>) -> bool {
    exists|i: int| 0 <= i < accounts.len() && (#[trigger] accounts[i]).balance > 0
}

/// The menu derived from the three state flags, in fixed order: with any
/// ledger account, Deposit then Show-Balance, and Withdraw only with a
/// positive balance somewhere; Create-Checking while no checking account
/// exists; Create-Savings while no savings account exists; Logout always
/// closes the list. Exit is never offered here.
pub open spec fn spec_valid_actions(
    has_checking: bool,
    has_savings: bool,
    has_positive: bool,
) -> Seq<UserActions> {
    let base: Seq<UserActions> = if has_checking || has_savings {
        if has_positive {
            seq![UserActions::Deposit, UserActions::ShowBalance, UserActions::Withdraw]
        } else {
            seq![UserActions::Deposit, UserActions::ShowBalance]
        }
    } else {
        Seq::empty()
    };
    let with_checking = if !has_checking {
        base.push(UserActions::CreateCheckings)
    } else {
        base
    };
    let with_savings = if !has_savings {
        with_checking.push(UserActions::CreateSavings)
    } else {
        with_checking
    };
    with_savings.push(UserActions::Logout)
}

/// The menu as a pure function of the three derived flags, exactly
/// `spec_valid_actions`.
pub fn actions_for_flags(has_checking: bool, has_savings: bool, has_positive: bool) -> (r: Vec<
    UserActions,
>)
    ensures
        r@ == spec_valid_actions(has_checking, has_savings, has_positive),
{
    let mut v: Vec<UserActions> = Vec::new();
    if has_checking || has_savings {
        v.push(UserActions::Deposit);
        v.push(UserActions::ShowBalance);
        if has_positive {
            v.push(UserActions::Withdraw);
        }
    }
    if !has_checking {
        v.push(UserActions::CreateCheckings);
    }
    if !has_savings {
        v.push(UserActions::CreateSavings);
    }
    v.push(UserActions::Logout);
    proof {
        assert(v@ =~= spec_valid_actions(has_checking, has_savings, has_positive));
    }
    v
}

/// Resolves an operator's one-based menu choice against an action list:
/// in-range numbers name an action, everything else is invalid.
pub fn select_action(actions: &Vec<UserActions>, user_input: i32) -> (r: Option<UserActions>)
    ensures
        match r {
            Some(a) => 1 <= user_input <= actions@.len() && a == actions@[user_input - 1],
            None => user_input < 1 || user_input > actions@.len(),
        },
{
    if 1 <= user_input && (user_input as usize) <= actions.len() {
        Some(actions[(user_input - 1) as usize])
    } else {
        None
    }
}

/// One operator's interaction state: the repository, and the owner account
/// the session is bound to after a successful login or registration.
pub struct Session {
    bank_account: Option<u32>,
    database: DatabaseHandler,
}

impl Session {
    /// The repository the session drives.
    pub closed spec fn db(&self) -> DatabaseHandler {
        self.database
    }

    /// The owner-account identifier the session is bound to, if any.
    pub closed spec fn bound_account(&self) -> Option<u32> {
        self.bank_account
    }

    pub open spec fn logged_in(&self) -> bool {
        self.bound_account() is Some
    }

    /// The bound owner-account identifier.
    pub open spec fn bound_owner(&self) -> u32
        recommends
            self.logged_in(),
    {
        match self.bound_account() {
            Some(id) => id,
            None => 0,
        }
    }

    /// A session is well formed when its repository is, and any binding
    /// names a live owner account.
    pub open spec fn wf(&self) -> bool {
        &&& self.db().wf()
        &&& match self.bound_account() {
            Some(id) => self.db().has_owner(id),
            None => true,
        }
    }

    /// Makes a fresh session over an empty repository, bound to nobody.
    pub fn new() -> (r: Self)
        ensures
            r.wf(),
            !r.logged_in(),
            r.db().owners().len() == 0,
            r.db().ledger_index() == Map::<u32, u32>::empty(),
    {
        Session { bank_account: None, database: DatabaseHandler::new() }
    }

    /// One authentication attempt: looks the username up and, on a match,
    /// binds the session to the found owner account. The password is read
    /// by the caller but never compared against the stored credential; the
    /// gap is kept as the design has it, not repaired here.
    pub fn login_attempt(&mut self, user_id: &str, _password: &str) -> (r: bool)
        requires
            old(self).wf(),
        ensures
            final(self).wf(),
            final(self).db() == old(self).db(),
            r == old(self).db().has_username(user_id@),
            r ==> final(self).logged_in() && final(self).bound_owner() == old(
                self,
            ).db().owners()[old(self).db().owner_index_by_username(user_id@)].id,
            !r ==> final(self).bound_account() == old(self).bound_account(),
    {
        let found: Option<u32> = match self.database.find_bank_account_with_user_id(user_id) {
            Some(account) => Some(account.id),
            None => None,
        };
        match found {
            Some(id) => {
                proof {
                    let i = self.db().owner_index_by_username(user_id@);
                    assert(0 <= i < self.db().owners().len() && self.db().owners()[i].id == id);
                    assert(self.db().has_owner(id));
                }
                self.bank_account = Some(id);
                true
            },
            None => false,
        }
    }

    /// Registration: rejects a username already in use and a malformed or
    /// invalid date of birth; otherwise creates the owner account through
    /// the repository, binds the session to it, and returns the new
    /// identifier.
    pub fn make_account_process(
        &mut self,
        user_id: String,
        password: String,
        name: String,
        dob_str: &str,
    ) -> (r: Option<u32>)
        requires
            old(self).wf(),
            old(self).db().owners().len() < 999999,
        ensures
            final(self).wf(),
            r is None <==> old(self).db().has_username(user_id@) || !parses_to_valid_date(
                dob_str@,
            ),
            r is None ==> *final(self) == *old(self),
            match r {
                Some(id) => {
                    &&& final(self).logged_in()
                    &&& final(self).bound_owner() == id
                    &&& final(self).db().has_owner(id)
                    &&& !old(self).db().has_owner(id)
                    &&& final(self).db().owners().len() == old(self).db().owners().len() + 1
                    &&& forall|i: int|
                        0 <= i < old(self).db().owners().len() ==> final(self).db().owners()[i]
                            == old(self).db().owners()[i]
                    &&& final(self).db().owners().last().id == id
                    &&& final(self).db().owners().last().userid == user_id
                    &&& final(self).db().owners().last().password == password
                    &&& final(self).db().owners().last().name == name
                    &&& final(self).db().owners().last().dob.year as int == dob_year(dob_str@)
                    &&& final(self).db().owners().last().dob.month as int == dob_month(dob_str@)
                    &&& final(self).db().owners().last().dob.day as int == dob_day(dob_str@)
                    &&& final(self).db().owners().last().accounts@.len() == 0
                    &&& final(self).db().ledger_index() == old(self).db().ledger_index()
                },
                None => true,
            },
    {
        if self.database.find_bank_account_with_user_id(user_id.as_str()).is_some() {
            return None;
        }
        let dob = match parse_date(dob_str) {
            Some(d) => d,
            None => {
                return None;
            },
        };
        let id = self.database.make_new_bank_account(name, dob, user_id, password);
        proof {
            assert(self.db().has_owner(id));
        }
        self.bank_account = Some(id);
        Some(id)
    }

    /// The owner account bound to this session. Meaningful only after a
    /// login or registration; calling it on an unbound session is a
    /// caller error, excluded here rather than failed loudly.
    pub fn bank_account_for_session(&self) -> (r: u32)
        requires
            self.logged_in(),
        ensures
            r == self.bound_owner(),
    {
        match self.bank_account {
            Some(id) => id,
            None => {
                proof {
                    assert(false);
                }
                0
            },
        }
    }

    /// Whether the username is already in use: registration rejects such
    /// a username before any account is created.
    pub fn username_taken(&self, user_id: &str) -> (r: bool)
        requires
            self.wf(),
        ensures
            r == self.db().has_username(user_id@),
    {
        self.database.find_bank_account_with_user_id(user_id).is_some()
    }

    /// The display name of the bound owner account.
    pub fn owner_name(&self) -> (r: String)
        requires
            self.wf(),
            self.logged_in(),
        ensures
            r@ == self.db().spec_owner(self.bound_owner()).name@,
    {
        let owner_id = self.bank_account_for_session();
        match self.database.get_bank_account_with_id_u32(owner_id) {
            Ok(owner) => owner.name.clone(),
            Err(e) => {
                proof {
                    assert(false);
                }
                String::new()
            },
        }
    }

    /// The display name of one ledger account.
    pub fn money_account_name(&self, money_id: u32) -> (r: String)
        requires
            self.wf(),
            self.db().has_money_account(money_id),
        ensures
            r@ == self.db().spec_money_account(money_id).name@,
    {
        match self.database.get_money_account_with_id_u32(money_id) {
            Some(m) => m.name.clone(),
            None => {
                proof {
                    assert(false);
                }
                String::new()
            },
        }
    }

    /// Clears the binding and returns control to the pre-authentication
    /// menu; the repository keeps all accounts.
    pub fn logout(&mut self)
        requires
            old(self).wf(),
        ensures
            final(self).wf(),
            !final(self).logged_in(),
            final(self).db() == old(self).db(),
    {
        self.bank_account = None;
    }

    /// Scans the bound owner account's ledger accounts once, derives the
    /// three state flags, and builds the menu from them.
    pub fn get_valid_actions(&self) -> (r: Vec<UserActions>)
        requires
            self.wf(),
            self.logged_in(),
        ensures
            ({
                let accounts = self.db().spec_owner(self.bound_owner()).accounts@;
                r@ == spec_valid_actions(
                    spec_has_checking(accounts),
                    spec_has_savings(accounts),
                    spec_has_positive_balance(accounts),
                )
            }),
    {
        let owner_id = self.bank_account_for_session();
        match self.database.get_bank_account_with_id_u32(owner_id) {
            Ok(owner) => {
                let ghost accounts = owner.accounts@;
                let mut has_checkings_acc: bool = false;
                let mut has_savings_acc: bool = false;
                let mut has_positive_balance: bool = false;
                let mut i: usize = 0;
                while i < owner.accounts.len()
                    invariant
                        i <= accounts.len(),
                        accounts == owner.accounts@,
                        has_checkings_acc == exists|j: int|
                            0 <= j < i && (#[trigger] accounts[j]).account_type is Checking,
                        has_savings_acc == exists|j: int|
                            0 <= j < i && (#[trigger] accounts[j]).account_type is Savings,
                        has_positive_balance == exists|j: int|
                            0 <= j < i && (#[trigger] accounts[j]).balance > 0,
                    decreases accounts.len() - i,
                {
                    let acc = &owner.accounts[i];
                    match acc.account_type {
                        MoneyAccountType::Checking => {
                            has_checkings_acc = true;
                        },
                        MoneyAccountType::Savings => {
                            has_savings_acc = true;
                        },
                        MoneyAccountType::Length => {
                        },
                    }
                    if acc.get_balance() > 0 {
                        has_positive_balance = true;
                    }
                    i = i + 1;
                }
                actions_for_flags(has_checkings_acc, has_savings_acc, has_positive_balance)
            },
            Err(e) => {
                proof {
                    assert(false);
                }
                Vec::new()
            },
        }
    }

    /// The identifiers of the bound owner account's ledger accounts, in
    /// the order they were created: the numbered selection list the
    /// deposit, withdraw and show-balance dialogues present.
    pub fn selectable_accounts(&self) -> (r: Vec<u32>)
        requires
            self.wf(),
            self.logged_in(),
        ensures
            ({
                let accounts = self.db().spec_owner(self.bound_owner()).accounts@;
                &&& r@.len() == accounts.len()
                &&& forall|p: int| 0 <= p < accounts.len() ==> r@[p] == accounts[p].id
            }),
    {
        let owner_id = self.bank_account_for_session();
        match self.database.get_bank_account_with_id_u32(owner_id) {
            Ok(owner) => {
                let mut ids: Vec<u32> = Vec::new();
                let mut i: usize = 0;
                while i < owner.accounts.len()
                    invariant
                        i <= owner.accounts@.len(),
                        ids@.len() == i,
                        forall|p: int| 0 <= p < i ==> ids@[p] == owner.accounts@[p].id,
                    decreases owner.accounts@.len() - i,
                {
                    ids.push(owner.accounts[i].get_account_number());
                    i = i + 1;
                }
                ids
            },
            Err(e) => {
                proof {
                    assert(false);
                }
                Vec::new()
            },
        }
    }

    /// Creates a ledger account of the given kind under the bound owner
    /// account, with the nickname the operator entered.
    pub fn action_create_money_account(&mut self, name: String, acc_type: MoneyAccountType) -> (r:
        u32)
        requires
            old(self).wf(),
            old(self).logged_in(),
            old(self).db().ledger_index().dom().len() < 999999,
        ensures
            final(self).wf(),
            final(self).bound_account() == old(self).bound_account(),
            r < 999999,
            !old(self).db().has_money_account(r),
            final(self).db().has_money_account(r),
            final(self).db().ledger_index() == old(self).db().ledger_index().insert(
                r,
                old(self).bound_owner(),
            ),
            final(self).db().money_owner(r) == old(self).bound_owner(),
            final(self).db().spec_money_account(r).account_type == acc_type,
            final(self).db().spec_money_account(r).name == name,
            final(self).db().spec_money_account(r).balance == 0,
            final(self).db().spec_money_account(r).can_overdraft == false,
            final(self).db().spec_money_account(r).linked_bank_account == old(self).bound_owner(),
            final(self).db().spec_money_account(r).id == r,
            ({
                let o = old(self).db().spec_owner(old(self).bound_owner());
                let no = final(self).db().spec_owner(old(self).bound_owner());
                &&& no.accounts@.len() == o.accounts@.len() + 1
                &&& forall|p: int| 0 <= p < o.accounts@.len() ==> no.accounts@[p] == o.accounts@[p]
                &&& no.accounts@.last() == final(self).db().spec_money_account(r)
            }),
            forall|k: u32|
                old(self).db().has_money_account(k) ==> final(self).db().has_money_account(k)
                    && final(self).db().spec_money_account(k) == old(self).db().spec_money_account(
                    k,
                ),
    {
        let owner_id = self.bank_account_for_session();
        proof {
            let oi = old(self).db().owner_index(owner_id);
            assert(0 <= oi < old(self).db().owners().len() && old(self).db().owners()[oi].id
                == owner_id);
        }
        let id = self.database.make_new_money_account(owner_id, name, acc_type);
        proof {
            let oi = old(self).db().owner_index(owner_id);
            self.db().lemma_owner_index_is(owner_id, oi);
            assert(self.db().spec_owner(owner_id) == self.db().owners()[oi]);
            assert forall|k: u32|
                old(self).db().has_money_account(k) implies self.db().has_money_account(k)
                && self.db().spec_money_account(k) == old(self).db().spec_money_account(k) by {
                assert(k != id);
                let okd = old(self).db().money_owner(k);
                let wi = old(self).db().owner_index(okd);
                assert(old(self).db().has_owner(okd));
                assert(old(self).db().owners()[wi].id == okd);
                assert(old(self).db().spec_owner(okd).accounts_map@.contains_key(k));
                assert(self.db().owners()[wi].id == okd);
                self.db().lemma_owner_index_is(okd, wi);
                if wi != oi {
                    assert(self.db().owners()[wi] == old(self).db().owners()[wi]);
                } else {
                    let o = old(self).db().owners()[oi];
                    let pos2 = o.accounts_map@[k] as int;
                    assert(0 <= pos2 < o.accounts@.len() && o.accounts@[pos2].id == k);
                    assert(self.db().owners()[oi].accounts@[pos2] == o.accounts@[pos2]);
                    assert(self.db().owners()[oi].accounts_map@[k] == o.accounts_map@[k]);
                }
            }
        }
        id
    }

    /// Deposits into one of the bound owner account's ledger accounts:
    /// unconditional addition, negative amounts included.
    pub fn action_deposit(&mut self, money_id: u32, amount: i32) -> (r: Result<i32, BalanceError>)
        requires
            old(self).wf(),
            old(self).logged_in(),
            old(self).db().has_money_account(money_id),
            old(self).db().money_owner(money_id) == old(self).bound_owner(),
            i32::MIN <= old(self).db().spec_money_account(money_id).balance + amount <= i32::MAX,
        ensures
            final(self).wf(),
            final(self).bound_account() == old(self).bound_account(),
            r == Ok::<i32, BalanceError>(
                (old(self).db().spec_money_account(money_id).balance + amount) as i32,
            ),
            spec_balance_set(
                old(self).db(),
                final(self).db(),
                money_id,
                spec_deposit(
                    old(self).db().spec_money_account(money_id).balance as int,
                    amount as int,
                ),
            ),
            final(self).db().spec_money_account(money_id).balance == old(
                self,
            ).db().spec_money_account(money_id).balance + amount,
            forall|k: u32|
                k != money_id && old(self).db().has_money_account(k) ==> final(self).db().spec_money_account(k) == old(self).db().spec_money_account(
                    k,
                ),
    {
        self.database.deposit_to_account(money_id, amount)
    }

    /// Withdraws from one of the bound owner account's ledger accounts,
    /// under the overdraft policy: when the subtraction would leave a
    /// negative balance on an overdraft-disabled account, the balance
    /// stays unchanged and the call fails with `NotEnough`.
    pub fn action_withdraw(&mut self, money_id: u32, amount: i32) -> (r: Result<i32, BalanceError>)
        requires
            old(self).wf(),
            old(self).logged_in(),
            old(self).db().has_money_account(money_id),
            old(self).db().money_owner(money_id) == old(self).bound_owner(),
            i32::MIN <= old(self).db().spec_money_account(money_id).balance - amount <= i32::MAX,
        ensures
            final(self).wf(),
            final(self).bound_account() == old(self).bound_account(),
            spec_balance_set(
                old(self).db(),
                final(self).db(),
                money_id,
                spec_withdraw(
                    old(self).db().spec_money_account(money_id).balance as int,
                    old(self).db().spec_money_account(money_id).can_overdraft,
                    amount as int,
                ),
            ),
            spec_withdraw_blocked(
                old(self).db().spec_money_account(money_id).balance as int,
                old(self).db().spec_money_account(money_id).can_overdraft,
                amount as int,
            ) ==> r == Err::<i32, BalanceError>(BalanceError::NotEnough)
                && final(self).db().spec_money_account(money_id).balance == old(
                self,
            ).db().spec_money_account(money_id).balance,
            !spec_withdraw_blocked(
                old(self).db().spec_money_account(money_id).balance as int,
                old(self).db().spec_money_account(money_id).can_overdraft,
                amount as int,
            ) ==> r == Ok::<i32, BalanceError>(
                (old(self).db().spec_money_account(money_id).balance - amount) as i32,
            ) && final(self).db().spec_money_account(money_id).balance == old(
                self,
            ).db().spec_money_account(money_id).balance - amount,
            forall|k: u32|
                k != money_id && old(self).db().has_money_account(k) ==> final(self).db().spec_money_account(k) == old(self).db().spec_money_account(
                    k,
                ),
    {
        self.database.withdraw_from_account(money_id, amount)
    }

    /// Reads one ledger account's balance, exactly as stored: a direct
    /// set of a negative value is visible here, whatever the overdraft
    /// flag says.
    pub fn action_show_balance(&self, money_id: u32) -> (r: i32)
        requires
            self.wf(),
            self.db().has_money_account(money_id),
        ensures
            r == self.db().spec_money_account(money_id).balance,
    {
        match self.database.get_money_account_with_id_u32(money_id) {
            Some(m) => m.get_balance(),
            None => {
                proof {
                    assert(false);
                }
                0
            },
        }
    }

    /// Overwrites one ledger account's balance through the direct-set
    /// path, which deliberately bypasses the overdraft policy.
    pub fn action_set_balance(&mut self, money_id: u32, new_balance: i32) -> (r: Result<
        i32,
        BalanceError,
    >)
        requires
            old(self).wf(),
            old(self).db().has_money_account(money_id),
        ensures
            final(self).wf(),
            final(self).bound_account() == old(self).bound_account(),
            r == Ok::<i32, BalanceError>(new_balance),
            spec_balance_set(old(self).db(), final(self).db(), money_id, new_balance as int),
            final(self).db().spec_money_account(money_id).balance == new_balance,
            final(self).db().spec_money_account(money_id).can_overdraft == old(
                self,
            ).db().spec_money_account(money_id).can_overdraft,
            forall|k: u32|
                k != money_id && old(self).db().has_money_account(k) ==> final(self).db().spec_money_account(k) == old(self).db().spec_money_account(
                    k,
                ),
    {
        self.database.set_account_balance(money_id, new_balance)
    }
}

} // verus!
