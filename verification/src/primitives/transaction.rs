//! Transactions as a block holds them.

use vstd::prelude::*;
use vstd::std_specs::convert::FromSpecImpl;

verus! {

/// A transaction record. A block reads nothing of a transaction but its
/// canonical 32-byte hash, which is all that the record holds here.
#[derive(Clone, Copy, Debug, PartialEq, Eq)]
pub struct Transaction {
    pub hash: [u8; 32],
}

impl Transaction {
    /// The record of the transaction with this hash.
    pub fn new(hash: [u8; 32]) -> (transaction: Self)
        ensures
            transaction.hash == hash,
    {
        Transaction { hash }
    }
}

impl From<Transaction> for [u8; 32] {
    fn from(transaction: Transaction) -> (hash: [u8; 32]) {
        transaction.hash
    }
}

impl FromSpecImpl<Transaction> for [u8; 32] {
    open spec fn obeys_from_spec() -> bool {
        true
    }

    open spec fn from_spec(transaction: Transaction) -> [u8; 32] {
        transaction.hash
    }
}

} // verus!
