//! Accounts and the record of what led to their balance.

use vstd::prelude::*;

verus! {

/// A reference to a transaction: the block that holds it, and its own hash.
#[derive(Debug, Clone, Copy, PartialEq, Eq)]
pub struct TransactionStub {
    /// The hash of the block that holds the transaction.
    pub block_hash: [u8; 32],
    /// The hash of the transaction.
    pub transaction_hash: [u8; 32],
}

/// The transactions that led to an account's balance, oldest first.
#[derive(Debug, Clone, PartialEq, Eq)]
pub struct NodeHistory {
    pub transactions: Vec<TransactionStub>,
}

/// An account of the ledger.
#[derive(Debug, Clone, PartialEq, Eq)]
pub struct Account {
    /// The account's address: its public key.
    pub address: [u8; 32],
    /// The account's balance.
    pub balance: u64,
    /// The number of transactions the account has sent, against replay.
    pub nonce: u64,
    /// What led to the balance, where it is tracked.
    pub history: Option<NodeHistory>,
}

impl Account {
    /// A new account with the given address and balance, which has sent
    /// nothing and has no history.
    pub fn new(address: [u8; 32], balance: u64) -> (account: Self)
        ensures
            account.address == address,
            account.balance == balance,
            account.nonce == 0,
            account.history is None,
    {
        Account { address, balance, nonce: 0, history: None }
    }
}

impl Default for Account {
    /// The account with the all-zero address, no balance and no history.
    fn default() -> (account: Self)
        ensures
            account.address@ == Seq::new(32, |i: int| 0u8),
            account.balance == 0,
            account.nonce == 0,
            account.history is None,
    {
        Account { address: [0u8; 32], balance: 0, nonce: 0, history: None }
    }
}

} // verus!
