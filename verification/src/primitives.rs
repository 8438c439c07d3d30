//! The ledger's records: transactions, block headers and blocks.

pub mod block;
pub mod transaction;
