//! Block headers and blocks.

use crate::crypto::hashing::{DefaultHash, HashFunction};
use crate::crypto::merkle::{
    fold_proof, generate_proof_of_inclusion, generate_tree, is_first_occurrence,
    lemma_built_tree, lemma_equal_roots_collide, lemma_first_occurrence_exists,
    lemma_same_digests_same_fold, merkle_root, same_digest, verify_proof_of_inclusion,
    MerkleProof, MerkleTree,
};
use crate::primitives::transaction::Transaction;
use crate::protocol::difficulty::{difficulty_at, get_difficulty_from_depth};
use crate::protocol::pow::{is_valid_hash, meets_difficulty};
use vstd::bytes::{spec_u64_to_le_bytes, u64_to_le_bytes};
use vstd::prelude::*;
use vstd::std_specs::convert::IntoSpec;

verus! {

/// What can be wrong with a header or a block.
#[derive(Clone, Copy, Debug, PartialEq, Eq, Structural)]
pub enum BlockError {
    /// The header has no miner address yet, so it has no hash.
    MissingMiner,
    /// The header's hash is not the hash claimed for it.
    HashMismatch,
    /// The header's hash does not meet the difficulty of its depth.
    BelowDifficulty,
    /// The header's timestamp is more than an hour ahead of the clock.
    FutureTimestamp,
    /// The block's tree holds no such transaction.
    ProofNotFound,
    /// The block's tree holds the transaction, but the proof it gives does not
    /// lead to the header's Merkle root.
    ProofInvalid,
    /// The block has no hash yet.
    NotFinalized,
    /// The transactions of a stored block do not give the Merkle root that
    /// its header claims.
    RootMismatch,
}

/// How far ahead of the validator's clock a header's timestamp may be, in
/// seconds.
pub const MAX_FUTURE_SECONDS: u64 = 3600;

/// The summary of a block that is hashed and checked.
#[derive(Debug, Copy, PartialEq, Eq)]
pub struct BlockHeader {
    /// The hash of the previous block's header.
    pub previous_hash: [u8; 32],
    /// The root of the Merkle tree over the block's transactions.
    pub merkle_root: [u8; 32],
    /// The number that mining varies.
    pub nonce: u64,
    /// When the block was made, in seconds since the epoch.
    pub timestamp: u64,
    /// The miner's address; absent until mining sets it.
    pub miner_address: Option<[u8; 32]>,
    /// The block's position in the chain.
    pub depth: u64,
}

impl Clone for BlockHeader {
    fn clone(&self) -> (copy: Self)
        ensures
            copy == *self,
    {
        BlockHeader {
            previous_hash: self.previous_hash,
            merkle_root: self.merkle_root,
            nonce: self.nonce,
            timestamp: self.timestamp,
            miner_address: self.miner_address,
            depth: self.depth,
        }
    }
}

impl BlockHeader {
    /// The bytes that are hashed, in this order: previous hash, Merkle root,
    /// miner address, then nonce, timestamp and depth, each as eight
    /// little-endian bytes.
    pub open spec fn canonical_bytes(&self) -> Seq<u8>
        recommends
            self.miner_address is Some,
    {
        self.previous_hash@ + self.merkle_root@ + self.miner_address->Some_0@
            + spec_u64_to_le_bytes(self.nonce) + spec_u64_to_le_bytes(self.timestamp)
            + spec_u64_to_le_bytes(self.depth)
    }

    /// The hash of the header under engines of type `H`.
    pub open spec fn digest<H: HashFunction>(&self) -> [u8; 32]
        recommends
            self.miner_address is Some,
    {
        H::digest_of(self.canonical_bytes())
    }

    /// The first three checks of validation, in their order: the header has
    /// a miner address; its hash, taken with an engine that had `pending`
    /// pending, is `expected_hash`; its hash meets the difficulty of its
    /// depth. The result names the first check that fails.
    pub open spec fn work_verdict<H: HashFunction>(
        &self,
        expected_hash: [u8; 32],
        pending: Seq<u8>,
    ) -> Result<(), BlockError> {
        if self.miner_address is None {
            Err(BlockError::MissingMiner)
        } else if expected_hash != H::digest_of(pending + self.canonical_bytes()) {
            Err(BlockError::HashMismatch)
        } else if !meets_difficulty(difficulty_at(self.depth), self.digest::<H>()@) {
            Err(BlockError::BelowDifficulty)
        } else {
            Ok(())
        }
    }

    /// The last check of validation: the timestamp is at most an hour ahead
    /// of `now`.
    pub open spec fn timestamp_valid(&self, now: u64) -> bool {
        self.timestamp <= now + MAX_FUTURE_SECONDS
    }

    /// All four checks of validation as of the time `now`: the first three,
    /// then the timestamp. The result names the first check that fails.
    pub open spec fn verdict_at<H: HashFunction>(
        &self,
        expected_hash: [u8; 32],
        pending: Seq<u8>,
        now: u64,
    ) -> Result<(), BlockError> {
        if self.work_verdict::<H>(expected_hash, pending) is Err {
            self.work_verdict::<H>(expected_hash, pending)
        } else if !self.timestamp_valid(now) {
            Err(BlockError::FutureTimestamp)
        } else {
            Ok(())
        }
    }

    /// The header with these fields.
    pub fn new(
        previous_hash: [u8; 32],
        merkle_root: [u8; 32],
        nonce: u64,
        timestamp: u64,
        miner_address: Option<[u8; 32]>,
        depth: u64,
    ) -> (header: Self)
        ensures
            header.previous_hash == previous_hash,
            header.merkle_root == merkle_root,
            header.nonce == nonce,
            header.timestamp == timestamp,
            header.miner_address == miner_address,
            header.depth == depth,
    {
        BlockHeader { previous_hash, merkle_root, nonce, timestamp, miner_address, depth }
    }

    /// Hashes the header with `hasher`. A header without a miner address has
    /// no hash, and the engine is left as it was. Otherwise the engine absorbs
    /// the canonical bytes behind whatever it had pending, and is finalized.
    pub fn hash<H: HashFunction>(&self, hasher: &mut H) -> (out: Result<[u8; 32], BlockError>)
        ensures
            self.miner_address is None ==> out == Err::<[u8; 32], BlockError>(
                BlockError::MissingMiner,
            ) && *final(hasher) == *old(hasher),
            self.miner_address is Some ==> out == Ok::<[u8; 32], BlockError>(
                H::digest_of(old(hasher).pending() + self.canonical_bytes()),
            ) && final(hasher).pending() == Seq::<u8>::empty() && !final(hasher).primed(),
    {
        match self.miner_address {
            None => Err(BlockError::MissingMiner),
            Some(miner) => {
                hasher.update(self.previous_hash.as_slice());
                hasher.update(self.merkle_root.as_slice());
                hasher.update(miner.as_slice());
                let nonce = u64_to_le_bytes(self.nonce);
                hasher.update(nonce.as_slice());
                let timestamp = u64_to_le_bytes(self.timestamp);
                hasher.update(timestamp.as_slice());
                let depth = u64_to_le_bytes(self.depth);
                hasher.update(depth.as_slice());
                assert(hasher.pending() =~= old(hasher).pending() + self.canonical_bytes());
                Ok(hasher.digest().unwrap())
            },
        }
    }

    fn check_work<H: HashFunction>(&self, expected_hash: [u8; 32], hasher: &mut H) -> (out: Result<
        (),
        BlockError,
    >)
        ensures
            out == self.work_verdict::<H>(expected_hash, old(hasher).pending()),
            self.miner_address is None ==> *final(hasher) == *old(hasher),
            self.miner_address is Some ==> final(hasher).pending() == Seq::<u8>::empty()
                && !final(hasher).primed(),
    {
        if self.miner_address.is_none() {
            return Err(BlockError::MissingMiner);
        }
        let claimed = self.hash(hasher).unwrap();
        if !same_digest(&expected_hash, &claimed) {
            return Err(BlockError::HashMismatch);
        }
        let worked = self.hash(hasher).unwrap();
        if !is_valid_hash(get_difficulty_from_depth(self.depth), &worked) {
            return Err(BlockError::BelowDifficulty);
        }
        Ok(())
    }

    fn check_timestamp(&self, now: u64) -> (ok: bool)
        ensures
            ok == self.timestamp_valid(now),
    {
        self.timestamp <= now || self.timestamp - now <= MAX_FUTURE_SECONDS
    }

    /// Checks the header as of the time `now`, in seconds since the epoch,
    /// and says which check failed. The checks are made in this order, and
    /// the first that fails ends them: the miner address is present; the
    /// header's hash is `expected_hash`; the hash meets the difficulty of the
    /// header's depth; the timestamp is at most an hour ahead of `now`.
    /// A header without a miner address leaves the engine as it was.
    pub fn check_at<H: HashFunction>(
        &self,
        expected_hash: [u8; 32],
        hasher: &mut H,
        now: u64,
    ) -> (out: Result<(), BlockError>)
        ensures
            out == self.verdict_at::<H>(expected_hash, old(hasher).pending(), now),
            self.miner_address is None ==> *final(hasher) == *old(hasher),
            self.miner_address is Some ==> final(hasher).pending() == Seq::<u8>::empty()
                && !final(hasher).primed(),
    {
        match self.check_work(expected_hash, hasher) {
            Err(error) => Err(error),
            Ok(_) => if self.check_timestamp(now) {
                Ok(())
            } else {
                Err(BlockError::FutureTimestamp)
            },
        }
    }

    /// Whether the header is valid as of the time `now`: whether `check_at`
    /// finds nothing wrong.
    pub fn validate_at<H: HashFunction>(
        &self,
        expected_hash: [u8; 32],
        hasher: &mut H,
        now: u64,
    ) -> (ok: bool)
        ensures
            ok == (self.verdict_at::<H>(expected_hash, old(hasher).pending(), now) is Ok),
            self.miner_address is None ==> *final(hasher) == *old(hasher),
            self.miner_address is Some ==> final(hasher).pending() == Seq::<u8>::empty()
                && !final(hasher).primed(),
    {
        self.check_at(expected_hash, hasher, now).is_ok()
    }

    /// Whether the header is valid as of the system clock's reading. The
    /// first three checks are those of `check_at`; only if they pass is the
    /// clock read, and the timestamp held against it. A clock that reads a
    /// time before the epoch fails the header.
    pub fn validate<H: HashFunction>(&self, expected_hash: [u8; 32], hasher: &mut H) -> (ok: bool)
        ensures
            ok ==> self.work_verdict::<H>(expected_hash, old(hasher).pending()) is Ok,
            self.miner_address is None ==> *final(hasher) == *old(hasher),
            self.miner_address is Some ==> final(hasher).pending() == Seq::<u8>::empty()
                && !final(hasher).primed(),
    {
        if self.check_work(expected_hash, hasher).is_err() {
            return false;
        }
        match seconds_since_epoch() {
            Some(now) => self.check_timestamp(now),
            None => false,
        }
    }
}

/// `std::time::SystemTime::elapsed`, called on `std::time::UNIX_EPOCH`: the
/// whole seconds from the epoch to the system clock's reading, or `None`
/// where the clock reads a time before the epoch. Nothing is claimed of the
/// value.
#[verifier::external_body]
fn seconds_since_epoch() -> Option<u64> {
    match std::time::UNIX_EPOCH.elapsed() {
        Ok(elapsed) => Some(elapsed.as_secs()),
        Err(_) => None,
    }
}

/// The 32-byte hashes of transactions, in their order.
pub open spec fn transaction_hashes(transactions: Seq<Transaction>) -> Seq<[u8; 32]> {
    Seq::new(transactions.len(), |i: int| transactions[i].hash)
}

/// A block: a header, the transactions it commits to, the Merkle tree over
/// them, and the header's hash once the block has a miner.
#[derive(Debug, Clone)]
pub struct Block {
    pub header: BlockHeader,
    pub transactions: Vec<Transaction>,
    /// The hash of `header`; absent while the block has no miner.
    pub hash: Option<[u8; 32]>,
    /// The tree over `transactions`. It is derived from them and never
    /// stored.
    pub merkle_tree: MerkleTree,
}

/// What is stored or sent of a block: all of it but the Merkle tree.
#[derive(Debug, Clone)]
pub struct PersistedBlock {
    pub header: BlockHeader,
    pub transactions: Vec<Transaction>,
    pub hash: Option<[u8; 32]>,
}

fn hashes_of(transactions: &Vec<Transaction>) -> (hashes: Vec<[u8; 32]>)
    ensures
        hashes@ == transaction_hashes(transactions@),
{
    let mut hashes: Vec<[u8; 32]> = Vec::new();
    let mut i: usize = 0;
    while i < transactions.len()
        invariant
            i <= transactions.len(),
            hashes.len() == i,
            forall|j: int| 0 <= j < i ==> hashes[j] == transactions[j].hash,
        decreases transactions.len() - i,
    {
        hashes.push(transactions[i].hash);
        i += 1;
    }
    hashes
}

impl Block {
    /// Whether the block is what construction with engines of type `H`
    /// makes of its transactions and of its header's other fields: the tree
    /// is the tree over the transactions' hashes, the header's Merkle root
    /// is the tree's root, and the hash is the header's hash, present
    /// exactly when the header has a miner address.
    pub open spec fn well_formed<H: HashFunction>(&self) -> bool {
        &&& self.merkle_tree.leaves() == transaction_hashes(self.transactions@)
        &&& self.merkle_tree.built_by::<H>()
        &&& self.header.merkle_root == merkle_root::<H>(transaction_hashes(self.transactions@))
        &&& self.hash == if self.header.miner_address is Some {
            Some(self.header.digest::<H>())
        } else {
            None
        }
    }

    /// Whether `out` is what the tree gives as proof for `leaf`: nothing if
    /// the tree does not hold `leaf`, and else the stored path of the first
    /// leaf that is `leaf`.
    pub open spec fn proof_for(&self, leaf: [u8; 32], out: Option<MerkleProof>) -> bool {
        match out {
            None => !self.merkle_tree.leaves().contains(leaf),
            Some(proof) => exists|i: int| #[trigger]
                is_first_occurrence(self.merkle_tree.leaves(), leaf, i) && proof.steps@
                    == self.merkle_tree.path(i),
        }
    }

    /// Whether the tree holds `leaf` and the stored path of its first
    /// occurrence leads, under SHA3-256, from it to the header's Merkle root.
    pub open spec fn includes(&self, leaf: [u8; 32]) -> bool {
        exists|i: int| #[trigger]
            is_first_occurrence(self.merkle_tree.leaves(), leaf, i) && fold_proof::<DefaultHash>(
                leaf,
                self.merkle_tree.path(i),
            ) == self.header.merkle_root
    }

    /// What is found of `leaf`: that the tree does not hold it, that the tree
    /// holds it but its proof does not lead to the header's Merkle root, or
    /// that the block includes it.
    pub open spec fn inclusion_verdict(&self, leaf: [u8; 32]) -> Result<(), BlockError> {
        if !self.merkle_tree.leaves().contains(leaf) {
            Err(BlockError::ProofNotFound)
        } else if !self.includes(leaf) {
            Err(BlockError::ProofInvalid)
        } else {
            Ok(())
        }
    }

    /// Builds the block over `transactions`, in their order: the Merkle tree
    /// over their hashes, the header with the tree's root, and the header's
    /// hash. Without a miner address the block has no hash yet.
    pub fn new<H: HashFunction>(
        previous_hash: [u8; 32],
        nonce: u64,
        timestamp: u64,
        transactions: Vec<Transaction>,
        miner_address: Option<[u8; 32]>,
        depth: u64,
        hasher: &mut H,
    ) -> (block: Self)
        ensures
            block.well_formed::<H>(),
            block.transactions@ == transactions@,
            block.header.previous_hash == previous_hash,
            block.header.nonce == nonce,
            block.header.timestamp == timestamp,
            block.header.miner_address == miner_address,
            block.header.depth == depth,
            final(hasher).pending() == Seq::<u8>::empty(),
            !final(hasher).primed(),
    {
        let merkle_tree = generate_tree(hashes_of(&transactions), hasher);
        let header = BlockHeader::new(
            previous_hash,
            merkle_tree.root_hash(),
            nonce,
            timestamp,
            miner_address,
            depth,
        );
        let hash = match header.hash(hasher) {
            Ok(hash) => Some(hash),
            Err(_) => None,
        };
        Block { header, transactions, hash, merkle_tree }
    }

    /// The proof that the transaction with hash `leaf` is in the block, or
    /// `None` if the tree holds no such leaf.
    pub fn get_proof_for_hash(&self, leaf: [u8; 32]) -> (out: Option<MerkleProof>)
        ensures
            self.proof_for(leaf, out),
    {
        generate_proof_of_inclusion(&self.merkle_tree, leaf)
    }

    /// Looks for the transaction with hash `leaf` in the block: asks the tree
    /// for a proof, and checks with a fresh SHA3-256 engine that the proof
    /// leads to the header's Merkle root.
    pub fn check_hash(&self, leaf: [u8; 32]) -> (out: Result<(), BlockError>)
        ensures
            out == self.inclusion_verdict(leaf),
    {
        match self.get_proof_for_hash(leaf) {
            Some(proof) => {
                let mut hasher = DefaultHash::new();
                if verify_proof_of_inclusion(leaf, &proof, self.header.merkle_root, &mut hasher) {
                    Ok(())
                } else {
                    Err(BlockError::ProofInvalid)
                }
            },
            None => Err(BlockError::ProofNotFound),
        }
    }

    /// Whether the transaction with hash `leaf` is in the block: whether
    /// `check_hash` finds it.
    pub fn validate_hash(&self, leaf: [u8; 32]) -> (ok: bool)
        ensures
            ok == self.includes(leaf),
    {
        self.check_hash(leaf).is_ok()
    }

    /// The proof that `transaction` is in the block: `get_proof_for_hash` of
    /// its 32-byte form.
    pub fn get_proof_for_transaction<T: Into<[u8; 32]>>(&self, transaction: T) -> (out: Option<
        MerkleProof,
    >)
        ensures
            T::obeys_into_spec() ==> self.proof_for(transaction.into_spec(), out),
            exists|leaf: [u8; 32]| #[trigger] self.proof_for(leaf, out),
    {
        self.get_proof_for_hash(transaction.into())
    }

    /// Whether `transaction` is in the block: `validate_hash` of its 32-byte
    /// form.
    pub fn validate_transaction<T: Into<[u8; 32]> + Clone>(&self, transaction: T) -> (ok: bool)
        ensures
            T::obeys_into_spec() ==> ok == self.includes(transaction.into_spec()),
            exists|leaf: [u8; 32]| ok == #[trigger] self.includes(leaf),
    {
        self.validate_hash(transaction.into())
    }

    /// The block's hash, or `NotFinalized` for a block that has none yet.
    pub fn into_hash(self) -> (out: Result<[u8; 32], BlockError>)
        ensures
            out == match self.hash {
                Some(hash) => Ok::<[u8; 32], BlockError>(hash),
                None => Err::<[u8; 32], BlockError>(BlockError::NotFinalized),
            },
    {
        match self.hash {
            Some(hash) => Ok(hash),
            None => Err(BlockError::NotFinalized),
        }
    }

    /// What is stored of the block.
    pub open spec fn persisted_form(&self) -> PersistedBlock {
        PersistedBlock { header: self.header, transactions: self.transactions, hash: self.hash }
    }

    /// The block without its tree, to be stored or sent.
    pub fn into_persisted(self) -> (persisted: PersistedBlock)
        ensures
            persisted == self.persisted_form(),
    {
        PersistedBlock { header: self.header, transactions: self.transactions, hash: self.hash }
    }

    /// What loading makes of a stored block, with engines of type `H`: the
    /// block built anew from the stored transactions and the stored header's
    /// fields, if that gives the Merkle root that the stored header claims,
    /// and `RootMismatch` if not. The stored hash is not read.
    pub open spec fn loaded_from<H: HashFunction>(
        persisted: PersistedBlock,
        out: Result<Block, BlockError>,
    ) -> bool {
        match out {
            Ok(block) => {
                &&& persisted.header.merkle_root == merkle_root::<H>(
                    transaction_hashes(persisted.transactions@),
                )
                &&& block.well_formed::<H>()
                &&& block.transactions@ == persisted.transactions@
                &&& block.header == persisted.header
            },
            Err(error) => {
                &&& error == BlockError::RootMismatch
                &&& persisted.header.merkle_root != merkle_root::<H>(
                    transaction_hashes(persisted.transactions@),
                )
            },
        }
    }

    /// Loads a stored block: builds it anew, as `new` does, from the stored
    /// transactions and the stored header's fields, so that the tree, the
    /// Merkle root and the hash are derived and none of them is taken on
    /// trust. A stored header whose Merkle root is not the derived one is
    /// rejected.
    pub fn from_persisted<H: HashFunction>(persisted: PersistedBlock, hasher: &mut H) -> (out:
        Result<Block, BlockError>)
        ensures
            Block::loaded_from::<H>(persisted, out),
            final(hasher).pending() == Seq::<u8>::empty(),
            !final(hasher).primed(),
    {
        let claimed = persisted.header;
        let block = Block::new(
            claimed.previous_hash,
            claimed.nonce,
            claimed.timestamp,
            persisted.transactions,
            claimed.miner_address,
            claimed.depth,
            hasher,
        );
        if same_digest(&block.header.merkle_root, &claimed.merkle_root) {
            Ok(block)
        } else {
            Err(BlockError::RootMismatch)
        }
    }
}

/// Determinism of the header hash: headers with the same field values have
/// the same hash.
pub proof fn lemma_header_hash_deterministic<H: HashFunction>(a: BlockHeader, b: BlockHeader)
    requires
        a.previous_hash == b.previous_hash,
        a.merkle_root == b.merkle_root,
        a.miner_address == b.miner_address,
        a.nonce == b.nonce,
        a.timestamp == b.timestamp,
        a.depth == b.depth,
    ensures
        a.digest::<H>() == b.digest::<H>(),
{
}

/// Blocks built from the same transactions in the same order have the same
/// tree and the same Merkle root.
pub proof fn lemma_same_order_same_root<H: HashFunction>(a: Block, b: Block)
    requires
        a.well_formed::<H>(),
        b.well_formed::<H>(),
        transaction_hashes(a.transactions@) == transaction_hashes(b.transactions@),
    ensures
        a.header.merkle_root == b.header.merkle_root,
        a.merkle_tree.levels() == b.merkle_tree.levels(),
{
}

/// Blocks with the same header and the same transactions in the same order
/// are the same block: they have the same tree and the same hash, and include
/// the same transactions.
pub proof fn lemma_same_parts_same_block<H: HashFunction>(a: Block, b: Block)
    requires
        a.well_formed::<H>(),
        b.well_formed::<H>(),
        a.header == b.header,
        a.transactions@ == b.transactions@,
    ensures
        a.merkle_tree.levels() == b.merkle_tree.levels(),
        a.hash == b.hash,
        forall|leaf: [u8; 32]| a.includes(leaf) == b.includes(leaf),
{
}

/// Order sensitivity: blocks built from as many transactions with different
/// hashes, or with the same hashes in another order, have different Merkle
/// roots, unless the engine type gives one digest for two different inputs.
/// The result is such a pair of inputs.
pub proof fn lemma_other_order_other_root<H: HashFunction>(a: Block, b: Block) -> (pair: (
    Seq<u8>,
    Seq<u8>,
))
    requires
        a.well_formed::<H>(),
        b.well_formed::<H>(),
        a.transactions.len() == b.transactions.len(),
        transaction_hashes(a.transactions@) != transaction_hashes(b.transactions@),
        a.header.merkle_root == b.header.merkle_root,
    ensures
        pair.0 != pair.1,
        H::digest_of(pair.0) == H::digest_of(pair.1),
{
    lemma_equal_roots_collide::<H>(
        transaction_hashes(a.transactions@),
        transaction_hashes(b.transactions@),
    )
}

/// Round-trip inclusion: a block built with an engine type that computes
/// SHA3-256 includes each of its transactions.
pub proof fn lemma_includes_own_transactions<H: HashFunction>(block: Block, i: int)
    requires
        block.well_formed::<H>(),
        forall|data: Seq<u8>| #[trigger] H::digest_of(data) == DefaultHash::digest_of(data),
        0 <= i < block.transactions.len(),
    ensures
        block.includes(block.transactions[i].hash),
{
    let leaves = block.merkle_tree.leaves();
    let leaf = block.transactions[i].hash;
    assert(leaves[i] == leaf);
    let first = lemma_first_occurrence_exists(leaves, leaf);
    lemma_built_tree::<H>(block.merkle_tree, first);
    lemma_same_digests_same_fold::<H, DefaultHash>(leaf, block.merkle_tree.path(first));
}

/// Negative inclusion: a block whose tree is the tree over its transactions
/// includes no hash but theirs.
pub proof fn lemma_includes_no_other(block: Block, leaf: [u8; 32])
    requires
        block.merkle_tree.leaves() == transaction_hashes(block.transactions@),
        !transaction_hashes(block.transactions@).contains(leaf),
    ensures
        !block.includes(leaf),
        block.inclusion_verdict(leaf) == Err::<(), BlockError>(BlockError::ProofNotFound),
{
}

/// Reconstruction equivalence: loading what is stored of a constructed block
/// succeeds and gives a block with the same header, the same transactions,
/// the same tree and the same hash.
pub proof fn lemma_reconstruction_equivalence<H: HashFunction>(
    built: Block,
    out: Result<Block, BlockError>,
)
    requires
        built.well_formed::<H>(),
        Block::loaded_from::<H>(built.persisted_form(), out),
    ensures
        out is Ok,
        out->Ok_0.header == built.header,
        out->Ok_0.transactions@ == built.transactions@,
        out->Ok_0.merkle_tree.levels() == built.merkle_tree.levels(),
        out->Ok_0.merkle_tree.root() == built.merkle_tree.root(),
        out->Ok_0.hash == built.hash,
{
}

} // verus!
