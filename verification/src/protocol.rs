//! Consensus parameters: how much work a block at a given depth must show.

pub mod difficulty;
pub mod pow;
