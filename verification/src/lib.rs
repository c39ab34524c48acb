//! Verified core of a multi-algorithm proof-of-work blockchain node.
//!
//! The crate covers the consensus-critical logic: the hash puzzle and its
//! overflow-based difficulty test, the height-driven fork policy that decides
//! which hash algorithms are legal, the seal wire format and its verifier,
//! the windowed difficulty-adjustment control loop, the mining step, and the
//! state models of the bundled storage-upgrade contracts.

pub mod u256;
pub mod codec;
pub mod hashes;
pub mod pow;
pub mod sha3pow;
pub mod difficulty;
pub mod mining;
pub mod config;
pub mod old_a;
pub mod new_a;
