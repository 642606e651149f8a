//! The account data model: a ledger account (one typed balance with an
//! overdraft policy) and an owner account (a credentialed entity owning a
//! collection of ledger accounts, indexed by identifier).
//!
//! Accounts are held by value: the repository owns the owner accounts, each
//! owner account owns its ledger accounts, and back-references are carried
//! as plain identifiers rather than pointers.

use std::collections::HashMap;

use vstd::prelude::*;

use crate::date::Date;
use crate::errors::BalanceError;

verus! {

/// The discriminator of a ledger account's kind.
#[derive(Clone, Copy, PartialEq, Eq, Structural, Debug)]
pub enum MoneyAccountType {
    Checking,
    Savings,
    /// Sentinel counting the real variants; never carried by an account.
    Length,
}

/// One typed balance holder with an overdraft policy, owned by exactly one
/// owner account.
pub struct MoneyAccount {
    /// Back-reference: the identifier of the owning owner account. It
    /// participates in navigation only, never in ownership.
    pub linked_bank_account: u32,
    pub account_type: MoneyAccountType,
    /// Unique across the whole system, not merely within one owner.
    pub id: u32,
    pub name: String,
    /// Whole currency units; negative only when overdraft is enabled or the
    /// balance was set directly.
    pub balance: i32,
    /// No current code path sets this true; the withdrawal check still
    /// consults it.
    pub can_overdraft: bool,
}

/// The balance after a deposit: unconditional addition, negative amounts
/// included.
pub open spec fn spec_deposit(balance: int, amount: int) -> int {
    balance + amount
}

/// Whether the overdraft policy blocks a withdrawal: it would drive the
/// balance negative and overdraft is disabled.
pub open spec fn spec_withdraw_blocked(balance: int, can_overdraft: bool, amount: int) -> bool {
    balance - amount < 0 && !can_overdraft
}

/// The balance after a withdrawal: unchanged when blocked, else the
/// subtraction, negative amounts included.
pub open spec fn spec_withdraw(balance: int, can_overdraft: bool, amount: int) -> int {
    if spec_withdraw_blocked(balance, can_overdraft, amount) {
        balance
    } else {
        balance - amount
    }
}

impl MoneyAccount {
    /// The display name of the account's kind.
    pub fn get_str(&self) -> (r: &'static str)
        ensures
            self.account_type is Checking ==> r@ == "Checkings Account"@,
            self.account_type is Savings ==> r@ == "Savings Account"@,
            self.account_type is Length ==> r@ == "NONE"@,
    {
        match self.account_type {
            MoneyAccountType::Checking => "Checkings Account",
            MoneyAccountType::Savings => "Savings Account",
            MoneyAccountType::Length => "NONE",
        }
    }

    pub fn get_account_number(&self) -> (r: u32)
        ensures
            r == self.id,
    {
        self.id
    }

    pub fn get_balance(&self) -> (r: i32)
        ensures
            r == self.balance,
    {
        self.balance
    }

    /// Unconditional overwrite of the balance. Deliberately bypasses the
    /// overdraft check: a direct set may leave any value, negative ones
    /// included, whatever the policy flag says.
    pub fn set_balance(&mut self, new_balance: i32) -> (r: Result<i32, BalanceError>)
        ensures
            final(self).balance == new_balance,
            r == Ok::<i32, BalanceError>(new_balance),
            final(self).linked_bank_account == old(self).linked_bank_account,
            final(self).account_type == old(self).account_type,
            final(self).id == old(self).id,
            final(self).name == old(self).name,
            final(self).can_overdraft == old(self).can_overdraft,
    {
        self.balance = new_balance;
        Ok(self.balance)
    }

    /// Deposits an amount: unconditional addition. A negative amount is
    /// accepted and lowers the balance.
    pub fn add_balance(&mut self, amount: i32) -> (r: Result<i32, BalanceError>)
        requires
            i32::MIN <= old(self).balance + amount <= i32::MAX,
        ensures
            final(self).balance == spec_deposit(old(self).balance as int, amount as int),
            r == Ok::<i32, BalanceError>(final(self).balance),
            final(self).linked_bank_account == old(self).linked_bank_account,
            final(self).account_type == old(self).account_type,
            final(self).id == old(self).id,
            final(self).name == old(self).name,
            final(self).can_overdraft == old(self).can_overdraft,
    {
        self.balance = self.balance + amount;
        Ok(self.balance)
    }

    /// Withdraws an amount. When the result would be negative and overdraft
    /// is disabled, the balance is left unchanged and the call fails with
    /// `NotEnough`; otherwise the subtraction goes through. A negative
    /// amount is accepted and raises the balance.
    pub fn subtract_balance(&mut self, amount: i32) -> (r: Result<i32, BalanceError>)
        requires
            i32::MIN <= old(self).balance - amount <= i32::MAX,
        ensures
            final(self).balance == spec_withdraw(
                old(self).balance as int,
                old(self).can_overdraft,
                amount as int,
            ),
            spec_withdraw_blocked(old(self).balance as int, old(self).can_overdraft, amount as int)
                ==> r == Err::<i32, BalanceError>(BalanceError::NotEnough) && *final(self) == *old(
                self,
            ),
            !spec_withdraw_blocked(old(self).balance as int, old(self).can_overdraft, amount as int)
                ==> r == Ok::<i32, BalanceError>(final(self).balance),
            final(self).linked_bank_account == old(self).linked_bank_account,
            final(self).account_type == old(self).account_type,
            final(self).id == old(self).id,
            final(self).name == old(self).name,
            final(self).can_overdraft == old(self).can_overdraft,
    {
        if self.balance - amount < 0 && !self.can_overdraft {
            Err(BalanceError::NotEnough)
        } else {
            self.balance = self.balance - amount;
            Ok(self.balance)
        }
    }

    /// The identifier of the owning owner account (the back-reference).
    pub fn get_bank_account(&self) -> (r: u32)
        ensures
            r == self.linked_bank_account,
    {
        self.linked_bank_account
    }
}

/// One step of ledger activity, for stating laws over call sequences.
pub enum LedgerOp {
    Deposit { amount: int },
    Withdraw { amount: int },
}

/// The balance reached by running a sequence of deposits and withdrawals
/// under a fixed overdraft policy.
pub open spec fn run_ledger_ops(balance: int, can_overdraft: bool, ops: Seq<LedgerOp>) -> int
    decreases ops.len(),
{
    if ops.len() == 0 {
        balance
    } else {
        let prev = run_ledger_ops(balance, can_overdraft, ops.drop_last());
        match ops.last() {
            LedgerOp::Deposit { amount } => spec_deposit(prev, amount),
            LedgerOp::Withdraw { amount } => spec_withdraw(prev, can_overdraft, amount),
        }
    }
}

/// Law: with overdraft disabled, whatever sequence of deposits and
/// withdrawals ran before, a withdrawal never leaves a negative balance
/// behind: either it goes through and the balance it leaves is
/// non-negative, or it would have driven the balance negative, in which
/// case the balance stays exactly what it was.
pub proof fn lemma_withdraw_never_negative(balance: int, ops: Seq<LedgerOp>, i: int, amt: int)
    requires
        0 <= i < ops.len(),
        ops[i] == (LedgerOp::Withdraw { amount: amt }),
    ensures
        spec_withdraw_blocked(run_ledger_ops(balance, false, ops.take(i)), false, amt)
            ==> run_ledger_ops(balance, false, ops.take(i + 1)) == run_ledger_ops(
            balance,
            false,
            ops.take(i),
        ),
        !spec_withdraw_blocked(run_ledger_ops(balance, false, ops.take(i)), false, amt)
            ==> run_ledger_ops(balance, false, ops.take(i + 1)) >= 0,
{
    assert(ops.take(i + 1).drop_last() =~= ops.take(i));
    assert(ops.take(i + 1).last() == ops[i]);
}

/// Law: depositing an amount and then withdrawing the same amount on a
/// fresh ledger account (balance zero, overdraft disabled) returns the
/// balance to zero, and neither step is refused.
pub proof fn lemma_deposit_withdraw_round_trip(amount: int)
    ensures
        !spec_withdraw_blocked(spec_deposit(0, amount), false, amount),
        spec_withdraw(spec_deposit(0, amount), false, amount) == 0,
{
}

/// An action the session may offer to the operator.
#[derive(Clone, Copy, PartialEq, Eq, Structural, Debug)]
pub enum UserActions {
    Deposit,
    Withdraw,
    ShowBalance,
    CreateSavings,
    CreateCheckings,
    Logout,
    Exit,
    /// Sentinel counting the real variants; never offered.
    Length,
}

impl UserActions {
    /// The menu line shown for the action.
    pub fn description(&self) -> (r: &'static str)
        ensures
            *self is Deposit ==> r@ == "Deposit money"@,
            *self is Withdraw ==> r@ == "Withdraw money"@,
            *self is ShowBalance ==> r@ == "Show balance"@,
            *self is CreateSavings ==> r@ == "Create savings account"@,
            *self is CreateCheckings ==> r@ == "Create checkings account"@,
            *self is Logout ==> r@ == "Logout"@,
            *self is Exit ==> r@ == "Exit"@,
            *self is Length ==> r@ == "NONE"@,
    {
        match self {
            UserActions::Deposit => "Deposit money",
            UserActions::Withdraw => "Withdraw money",
            UserActions::ShowBalance => "Show balance",
            UserActions::CreateSavings => "Create savings account",
            UserActions::CreateCheckings => "Create checkings account",
            UserActions::Logout => "Logout",
            UserActions::Exit => "Exit",
            UserActions::Length => "NONE",
        }
    }
}

/// A credentialed entity owning zero or more ledger accounts, with an index
/// from each owned ledger account's identifier to its position in the owned
/// collection.
pub struct BankAccount {
    /// Unique, system-wide, assigned by the repository.
    pub id: u32,
    pub name: String,
    pub dob: Date,
    /// The authoritative, exclusive collection of owned ledger accounts.
    pub accounts: Vec<MoneyAccount>,
    /// Index: ledger account identifier to its position in `accounts`.
    pub accounts_map: HashMap<u32, usize>,
    /// Login credential; unique across all owner accounts in the repository.
    pub userid: String,
    /// Stored in cleartext in this model, a known weakness of the design.
    pub password: String,
}

impl BankAccount {
    /// Well-formedness: the index maps exactly the owned identifiers to
    /// their positions, and every owned account points back at this owner.
    pub open spec fn wf(&self) -> bool {
        &&& forall|p: int|
            0 <= p < self.accounts@.len() ==> {
                &&& self.accounts_map@.contains_key(#[trigger] self.accounts@[p].id)
                &&& self.accounts_map@[self.accounts@[p].id] as int == p
                &&& self.accounts@[p].linked_bank_account == self.id
            }
        &&& forall|k: u32|
            #[trigger] self.accounts_map@.contains_key(k) ==> {
                &&& self.accounts_map@[k] < self.accounts@.len()
                &&& self.accounts@[self.accounts_map@[k] as int].id == k
            }
    }

    /// Whether this owner holds a ledger account with the identifier.
    pub open spec fn owns_money_account(&self, id: u32) -> bool {
        self.accounts_map@.contains_key(id)
    }

    /// Makes a fresh owner account with no ledger accounts yet. The caller
    /// (the repository) assigns the identifier.
    pub fn new(account_number: u32, name: String, dob: Date, userid: String, password: String) -> (r:
        Self)
        ensures
            r.id == account_number,
            r.name == name,
            r.dob == dob,
            r.userid == userid,
            r.password == password,
            r.accounts@.len() == 0,
            r.accounts_map@ == Map::<u32, usize>::empty(),
            r.wf(),
    {
        Self {
            id: account_number,
            name,
            dob,
            accounts: Vec::new(),
            accounts_map: HashMap::new(),
            userid,
            password,
        }
    }

    /// Looks a ledger account up in this owner's index.
    pub fn get_associated_money_account(&self, id: u32) -> (r: Option<&MoneyAccount>)
        requires
            self.wf(),
        ensures
            match r {
                Some(m) => self.owns_money_account(id) && *m == self.accounts@[self.accounts_map@[id] as int],
                None => !self.owns_money_account(id),
            },
    {
        broadcast use vstd::std_specs::hash::group_hash_axioms;

        match self.accounts_map.get(&id) {
            Some(p) => Some(&self.accounts[*p]),
            None => None,
        }
    }
}

} // verus!
