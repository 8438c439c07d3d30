//! Hash engines and the Merkle tree built with them.

pub mod hashing;
pub mod merkle;
