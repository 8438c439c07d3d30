//! Block-integrity core of a proof-of-work ledger: header hashing and
//! validation, block construction over a Merkle tree of transactions, and
//! inclusion proofs.

pub mod accounting;
pub mod crypto;
pub mod primitives;
pub mod protocol;
