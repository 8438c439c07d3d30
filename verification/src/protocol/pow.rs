//! The proof-of-work predicate: a hash meets a difficulty when it starts with
//! at least that many zero bits.

use vstd::prelude::*;

verus! {

/// The number of zero bits before the first one bit of a byte; 8 for zero.
pub open spec fn byte_leading_zeros(b: u8) -> nat {
    if b == 0 {
        8
    } else if b < 2 {
        7
    } else if b < 4 {
        6
    } else if b < 8 {
        5
    } else if b < 16 {
        4
    } else if b < 32 {
        3
    } else if b < 64 {
        2
    } else if b < 128 {
        1
    } else {
        0
    }
}

/// The number of zero bits before the first one bit of a byte string, read
/// from its first byte, most significant bit first.
pub open spec fn leading_zero_bits(bytes: Seq<u8>) -> nat
    decreases bytes.len(),
{
    if bytes.len() == 0 {
        0
    } else if bytes[0] == 0 {
        8 + leading_zero_bits(bytes.drop_first())
    } else {
        byte_leading_zeros(bytes[0])
    }
}

/// Whether `hash` meets `difficulty`.
pub open spec fn meets_difficulty(difficulty: int, hash: Seq<u8>) -> bool {
    leading_zero_bits(hash) >= difficulty
}

fn leading_zeros_of(b: u8) -> (n: u64)
    ensures
        n == byte_leading_zeros(b),
{
    if b == 0 {
        8
    } else if b < 2 {
        7
    } else if b < 4 {
        6
    } else if b < 8 {
        5
    } else if b < 16 {
        4
    } else if b < 32 {
        3
    } else if b < 64 {
        2
    } else if b < 128 {
        1
    } else {
        0
    }
}

/// Whether `hash` starts with at least `difficulty` zero bits.
pub fn is_valid_hash(difficulty: u64, hash: &[u8; 32]) -> (ok: bool)
    ensures
        ok == meets_difficulty(difficulty as int, hash@),
{
    let mut zeros: u64 = 0;
    let mut i: usize = 0;
    assert(hash@.skip(0) =~= hash@);
    while i < 32 && hash[i] == 0
        invariant
            i <= 32,
            zeros == 8 * i,
            leading_zero_bits(hash@) == zeros + leading_zero_bits(hash@.skip(i as int)),
        decreases 32 - i,
    {
        assert(hash@.skip(i as int).drop_first() =~= hash@.skip(i + 1));
        zeros += 8;
        i += 1;
    }
    if i < 32 {
        zeros += leading_zeros_of(hash[i]);
    }
    zeros >= difficulty
}

} // verus!
