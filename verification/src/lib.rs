//! A single-node ledger: an append-only, hash-linked sequence of blocks,
//! each sealed by a proof-of-work search, persisted in an embedded
//! key-value store, and traversable backward from the tip to genesis.

pub mod block;
pub mod blockchain;
pub mod clock;
pub mod codec;
pub mod digest;
pub mod errors;
pub mod kv;
pub mod strutil;
pub mod transaction;
