//! The difficulty that a block must meet, as a function of its depth.

use vstd::prelude::*;

verus! {

/// The difficulty of the first blocks: leading zero bits asked of a header's
/// hash.
pub const BASE_DIFFICULTY: u64 = 4;

/// The number of blocks after which the difficulty rises by one bit.
pub const DIFFICULTY_INTERVAL: u64 = 65536;

/// The difficulty at `depth`.
pub open spec fn difficulty_at(depth: u64) -> int {
    BASE_DIFFICULTY + depth / DIFFICULTY_INTERVAL
}

/// The difficulty that a block at `depth` must meet.
pub fn get_difficulty_from_depth(depth: u64) -> (difficulty: u64)
    ensures
        difficulty == difficulty_at(depth),
{
    BASE_DIFFICULTY + depth / DIFFICULTY_INTERVAL
}

} // verus!
