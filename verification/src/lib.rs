//! An in-memory single-user banking ledger: owner accounts holding typed
//! ledger accounts, a repository that generates collision-free identifiers,
//! and the session logic that decides which actions are legal in each state.

pub mod account;
pub mod actions;
pub mod database;
pub mod date;
pub mod errors;
pub mod session;
