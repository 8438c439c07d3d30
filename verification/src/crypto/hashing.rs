//! Hash engines: stateful objects that absorb bytes and finalize to a
//! 32-byte digest.

use sha3::Digest;
use vstd::prelude::*;

verus! {

/// The SHA3-256 digest of a byte string, as `sha3::Sha3_256` computes it.
pub uninterp spec fn sha3_256(data: Seq<u8>) -> [u8; 32];

/// Why a hash engine gave no digest.
#[derive(Clone, Copy, Debug, PartialEq, Eq, Structural)]
pub enum HashError {
    /// The engine has absorbed nothing since it was made or last finalized.
    NothingAbsorbed,
}

/// A hash engine. It absorbs bytes with `update`, any number of times, and
/// `digest` turns what was absorbed into 32 bytes and leaves the engine ready
/// for the next computation.
pub trait HashFunction: Sized {
    /// The bytes absorbed since the engine was made or last finalized.
    spec fn pending(&self) -> Seq<u8>;

    /// Whether `update` has been called since the engine was made or last
    /// finalized.
    spec fn primed(&self) -> bool;

    /// The digest that engines of this type compute for `data`.
    spec fn digest_of(data: Seq<u8>) -> [u8; 32];

    /// Absorbs `data` behind what is already pending.
    fn update(&mut self, data: &[u8])
        ensures
            final(self).pending() == old(self).pending() + data@,
            final(self).primed(),
    ;

    /// Finalizes: the digest of the pending bytes if anything was absorbed,
    /// an error if not. Either way the engine is empty afterwards.
    fn digest(&mut self) -> (out: Result<[u8; 32], HashError>)
        ensures
            final(self).pending() == Seq::<u8>::empty(),
            !final(self).primed(),
            old(self).primed() ==> out == Ok::<[u8; 32], HashError>(
                Self::digest_of(old(self).pending()),
            ),
            !old(self).primed() ==> out == Err::<[u8; 32], HashError>(HashError::NothingAbsorbed),
    ;
}

/// The engine that the ledger uses everywhere: SHA3-256. It holds what it
/// has absorbed until `digest` hashes it in one go.
#[derive(Debug)]
pub struct DefaultHash {
    buffer: Vec<u8>,
    primed: bool,
}

/// `Digest::digest` of the `digest` crate for `sha3::Sha3_256`: a fresh
/// SHA3-256 state absorbs `data` and is finalized to 32 bytes. The contract
/// gives the result its name and claims nothing else of it.
#[verifier::external_body]
fn sha3_256_digest(data: &[u8]) -> (out: [u8; 32])
    ensures
        out == sha3_256(data@),
{
    sha3::Sha3_256::digest(data).into()
}

impl DefaultHash {
    /// A fresh engine, with nothing absorbed.
    pub fn new() -> (engine: Self)
        ensures
            engine.pending() == Seq::<u8>::empty(),
            !engine.primed(),
    {
        DefaultHash { buffer: Vec::new(), primed: false }
    }
}

impl HashFunction for DefaultHash {
    closed spec fn pending(&self) -> Seq<u8> {
        self.buffer@
    }

    closed spec fn primed(&self) -> bool {
        self.primed
    }

    open spec fn digest_of(data: Seq<u8>) -> [u8; 32] {
        sha3_256(data)
    }

    fn update(&mut self, data: &[u8]) {
        let n: usize = data.len();
        let mut i: usize = 0;
        while i < n
            invariant
                i <= n,
                n == data@.len(),
                self.buffer@ == old(self).buffer@ + data@.subrange(0, i as int),
            decreases n - i,
        {
            self.buffer.push(data[i]);
            i += 1;
        }
        self.primed = true;
    }

    fn digest(&mut self) -> (out: Result<[u8; 32], HashError>) {
        if !self.primed {
            self.buffer = Vec::new();
            return Err(HashError::NothingAbsorbed);
        }
        let out = sha3_256_digest(self.buffer.as_slice());
        self.buffer = Vec::new();
        self.primed = false;
        Ok(out)
    }
}

} // verus!
