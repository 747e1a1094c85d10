//! Core of a rollup batch prover.
//!
//! Given the executed headers of a contiguous block range, the library
//! aggregates their state roots into a Merkle root, chains that root to the
//! previous batch's hash, checks account/storage inclusion proofs to read two
//! bridge message counters, and packs the result into a fixed-width public
//! commitment whose byte layout is itself part of the cryptographic contract.

pub mod bytes;
pub mod hashing;
pub mod inclusion;
pub mod codec;
pub mod executor;
pub mod merkle;
pub mod orchestrator;
pub mod registry;
pub mod rlp;
pub mod trienode;
