//! Error taxonomies for the banking core: session-level failures and
//! balance-operation failures. Several variants are declared but never
//! raised by current code paths; they are reserved for future policy.

use vstd::prelude::*;

verus! {

/// Errors that end or fail a session run.
#[derive(Clone, Copy, PartialEq, Eq, Structural, Debug)]
pub enum SessionError {
    /// Authentication attempts were exhausted.
    FailedLogin,
    /// Declared, never raised: reserved for frozen owner accounts.
    LockedAccount,
    /// Catch-all for unreachable dispatch branches.
    Unknown,
}

impl SessionError {
    /// A human-readable description of the error.
    pub fn as_str(&self) -> (r: &'static str)
        ensures
            *self is FailedLogin ==> r@ == "Login failed too many times!"@,
            *self is LockedAccount ==> r@ == "Bank account is locked!"@,
            *self is Unknown ==> r@ == "Unknown error"@,
    {
        match self {
            Self::FailedLogin => "Login failed too many times!",
            Self::LockedAccount => "Bank account is locked!",
            Self::Unknown => "Unknown error",
        }
    }
}

/// Errors raised by ledger balance operations.
#[derive(Clone, Copy, PartialEq, Eq, Structural, Debug)]
pub enum BalanceError {
    /// A withdrawal would breach the overdraft policy.
    NotEnough,
    /// Declared, never raised: reserved for frozen ledger accounts.
    Locked,
    /// Declared, never raised.
    Unknown,
}

impl BalanceError {
    /// A human-readable description of the error.
    pub fn as_str(&self) -> (r: &'static str)
        ensures
            *self is NotEnough ==> r@ == "Not enough balance"@,
            *self is Locked ==> r@ == "Bank account is locked"@,
            *self is Unknown ==> r@ == "Unknown error"@,
    {
        match self {
            BalanceError::NotEnough => "Not enough balance",
            BalanceError::Locked => "Bank account is locked",
            BalanceError::Unknown => "Unknown error",
        }
    }
}

} // verus!
