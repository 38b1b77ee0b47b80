//! The single tagged error type that every fallible operation of the
//! ledger returns. Nothing is retried inside the library; callers turn
//! these into a terminal message.

use vstd::prelude::*;

verus! {

#[derive(Debug, Clone, Copy, PartialEq, Eq, Structural)]
pub enum Error {
    /// System time unavailable or before the epoch at mining time.
    ClockError,
    /// Backend open/read/write/flush failure.
    StoreIOError,
    /// Encode/decode mismatch or truncated/corrupt record.
    SerializationError,
    /// The tip references a missing block, or a backward link is broken.
    ChainIntegrityError,
    /// The nonce space was exhausted without satisfying the difficulty.
    MiningExhausted,
    /// `create_blockchain` was called on a store that already holds a chain.
    AlreadyInitialized,
    /// `new` was called on a store that holds no tip pointer yet.
    Uninitialized,
}

impl Error {
    /// A short description, for callers that print the error.
    pub fn describe(&self) -> (r: &'static str)
        ensures
            r@.len() > 0,
    {
        proof {
            reveal_strlit("system clock is unavailable or before the epoch");
            reveal_strlit("block store I/O failure");
            reveal_strlit("corrupt or truncated block record");
            reveal_strlit("chain integrity violation: a referenced block is missing or malformed");
            reveal_strlit("nonce space exhausted without a valid proof of work");
            reveal_strlit("block store already holds a chain");
            reveal_strlit("block store holds no chain yet");
        }
        match self {
            Error::ClockError => "system clock is unavailable or before the epoch",
            Error::StoreIOError => "block store I/O failure",
            Error::SerializationError => "corrupt or truncated block record",
            Error::ChainIntegrityError => "chain integrity violation: a referenced block is missing or malformed",
            Error::MiningExhausted => "nonce space exhausted without a valid proof of work",
            Error::AlreadyInitialized => "block store already holds a chain",
            Error::Uninitialized => "block store holds no chain yet",
        }
    }
}

} // verus!
