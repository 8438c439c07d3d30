//! Accounts of the ledger.

pub mod account;
