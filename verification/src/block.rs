//! Blocks and the proof-of-work that seals them. A block's hash is the
//! SHA-256 digest of its canonical hashable bytes; mining searches the
//! nonce space from zero upward for the first nonce whose hash carries
//! the required count of leading zero hex digits.

use vstd::prelude::*;
use crate::clock::now_millis;
use crate::codec::{BlockModel, hash_input, hash_input_bytes};
use crate::digest::{sha256_hex, sha256_hex_of, is_hex_char};
use crate::errors::Error;
use vstd::string::StrSliceExecFns;

verus! {

/// Leading zero hex digits demanded of a block mined by `new_block`.
pub const DEFAULT_DIFFICULTY: usize = 4;

/// One block of the ledger, immutable once mined.
#[derive(Debug, Clone, PartialEq)]
pub struct Block {
    pub timestamp: u128,
    pub transactions: String,
    pub prev_block_hash: String,
    pub hash: String,
    pub height: usize,
    pub nonce: i32,
}

impl View for Block {
    type V = BlockModel;

    open spec fn view(&self) -> BlockModel {
        BlockModel {
            timestamp: self.timestamp,
            transactions: self.transactions@,
            prev_block_hash: self.prev_block_hash@,
            hash: self.hash@,
            height: self.height as u64,
            nonce: self.nonce,
        }
    }
}

/// The hash sealing the given fields: the digest of their canonical bytes.
pub open spec fn block_hash(
    prev_block_hash: Seq<char>,
    transactions: Seq<char>,
    timestamp: u128,
    difficulty: u64,
    nonce: i32,
) -> Seq<char> {
    sha256_hex_of(hash_input(prev_block_hash, transactions, timestamp, difficulty, nonce))
}

/// The proof-of-work predicate: at least `difficulty` leading zero hex
/// digits.
pub open spec fn pow_ok(hash: Seq<char>, difficulty: int) -> bool {
    &&& hash.len() >= difficulty
    &&& forall|i: int| 0 <= i < difficulty ==> hash[i] == '0'
}

/// What mining with the given fields returns: the fields themselves,
/// sealed by the hash of the least nonce that satisfies the difficulty.
pub open spec fn mine_post(
    m: BlockModel,
    prev_block_hash: Seq<char>,
    transactions: Seq<char>,
    height: u64,
    difficulty: u64,
    timestamp: u128,
) -> bool {
    &&& m.prev_block_hash == prev_block_hash
    &&& m.transactions == transactions
    &&& m.timestamp == timestamp
    &&& m.height == height
    &&& 0 <= m.nonce
    &&& m.hash == block_hash(prev_block_hash, transactions, timestamp, difficulty, m.nonce)
    &&& m.hash.len() == 64
    &&& (forall|i: int| 0 <= i < 64 ==> is_hex_char(#[trigger] m.hash[i]))
    &&& pow_ok(m.hash, difficulty as int)
    &&& (forall|n: i32|
        0 <= n < m.nonce ==> !pow_ok(
            #[trigger] block_hash(prev_block_hash, transactions, timestamp, difficulty, n),
            difficulty as int,
        ))
}

/// No nonce at all seals the given fields under the given difficulty:
/// the whole nonce space is exhausted.
pub open spec fn mining_exhausted_at(
    prev_block_hash: Seq<char>,
    transactions: Seq<char>,
    timestamp: u128,
    difficulty: u64,
) -> bool {
    forall|n: i32|
        0 <= n ==> !pow_ok(
            #[trigger] block_hash(prev_block_hash, transactions, timestamp, difficulty, n),
            difficulty as int,
        )
}

/// A self-consistent block under the given difficulty: its stored hash
/// re-derives from its stored fields and satisfies the difficulty.
pub open spec fn validate_spec(m: BlockModel, difficulty: u64) -> bool {
    &&& m.hash == block_hash(m.prev_block_hash, m.transactions, m.timestamp, difficulty, m.nonce)
    &&& pow_ok(m.hash, difficulty as int)
}

/// Checks the leading zero hex digits of a hash string.
fn pow_check(hash: &String, difficulty: usize) -> (r: bool)
    ensures
        r == pow_ok(hash@, difficulty as int),
{
    let n = hash.as_str().unicode_len();
    if n < difficulty {
        return false;
    }
    let mut i: usize = 0;
    while i < difficulty
        invariant
            i <= difficulty,
            difficulty <= n,
            n == hash@.len(),
            forall|j: int| 0 <= j < i ==> hash@[j] == '0',
        decreases difficulty - i,
    {
        if hash.as_str().get_char(i) != '0' {
            return false;
        }
        i = i + 1;
    }
    true
}

impl Block {
    /// The block's own hash.
    pub fn get_hash(&self) -> (r: String)
        ensures
            r@ == self@.hash,
    {
        self.hash.clone()
    }

    /// The hash of the parent block; empty only for genesis.
    pub fn get_prev_hash(&self) -> (r: String)
        ensures
            r@ == self@.prev_block_hash,
    {
        self.prev_block_hash.clone()
    }

    /// The block's height: genesis is 0, otherwise parent height plus one.
    pub fn get_height(&self) -> (r: usize)
        ensures
            r as u64 == self@.height,
    {
        self.height
    }

    /// The block's payload.
    pub fn get_transactions(&self) -> (r: String)
        ensures
            r@ == self@.transactions,
    {
        self.transactions.clone()
    }

    /// Seals the given fields by searching the nonce space from zero for
    /// the first hash with `difficulty` leading zero hex digits; fails
    /// with `MiningExhausted` when no nonce satisfies it.
    pub fn mine(
        prev_block_hash: String,
        transactions: String,
        height: usize,
        difficulty: usize,
        timestamp: u128,
    ) -> (r: Result<Block, Error>)
        ensures
            match r {
                Ok(b) => mine_post(
                    b@,
                    prev_block_hash@,
                    transactions@,
                    height as u64,
                    difficulty as u64,
                    timestamp,
                ),
                Err(e) => e == Error::MiningExhausted && mining_exhausted_at(
                    prev_block_hash@,
                    transactions@,
                    timestamp,
                    difficulty as u64,
                ),
            },
    {
        let mut nonce: i32 = 0;
        loop
            invariant
                0 <= nonce,
                forall|n: i32|
                    0 <= n < nonce ==> !pow_ok(
                        #[trigger] block_hash(
                            prev_block_hash@,
                            transactions@,
                            timestamp,
                            difficulty as u64,
                            n,
                        ),
                        difficulty as int,
                    ),
            decreases i32::MAX - nonce,
        {
            let data = hash_input_bytes(
                prev_block_hash.as_str(),
                transactions.as_str(),
                timestamp,
                difficulty as u64,
                nonce,
            );
            let hash = sha256_hex(data.as_slice());
            if pow_check(&hash, difficulty) {
                return Ok(
                    Block { timestamp, transactions, prev_block_hash, hash, height, nonce },
                );
            }
            if nonce == i32::MAX {
                return Err(Error::MiningExhausted);
            }
            nonce = nonce + 1;
        }
    }

    /// Recomputes the hash from the stored fields and nonce and checks
    /// that it matches the stored hash and satisfies the difficulty.
    pub fn validate(&self, difficulty: usize) -> (r: bool)
        ensures
            r == validate_spec(self@, difficulty as u64),
    {
        let data = hash_input_bytes(
            self.prev_block_hash.as_str(),
            self.transactions.as_str(),
            self.timestamp,
            difficulty as u64,
            self.nonce,
        );
        let hash = sha256_hex(data.as_slice());
        let same = self.hash == hash;
        let sealed = pow_check(&hash, difficulty);
        same && sealed
    }

    /// Mines a block over the given payload at the default difficulty,
    /// stamped with the wall clock at the start of mining.
    pub fn new_block(data: String, prev_block_hash: String, height: usize) -> (r: Result<
        Block,
        Error,
    >)
        ensures
            match r {
                Ok(b) => mine_post(
                    b@,
                    prev_block_hash@,
                    data@,
                    height as u64,
                    DEFAULT_DIFFICULTY as u64,
                    b@.timestamp,
                ),
                Err(e) => {
                    &&& (e == Error::ClockError || e == Error::MiningExhausted)
                    &&& e == Error::MiningExhausted ==> exists|ts: u128|
                        #[trigger] mining_exhausted_at(
                            prev_block_hash@,
                            data@,
                            ts,
                            DEFAULT_DIFFICULTY as u64,
                        )
                },
            },
    {
        let timestamp = match now_millis() {
            Err(e) => { return Err(e); },
            Ok(t) => t,
        };
        Block::mine(prev_block_hash, data, height, DEFAULT_DIFFICULTY, timestamp)
    }

    /// Mines the first block of a chain: empty previous hash, height 0.
    pub fn new_genesis_block(genesis_payload: String) -> (r: Result<Block, Error>)
        ensures
            match r {
                Ok(b) => {
                    &&& b@.height == 0
                    &&& b@.prev_block_hash.len() == 0
                    &&& mine_post(
                        b@,
                        Seq::<char>::empty(),
                        genesis_payload@,
                        0,
                        DEFAULT_DIFFICULTY as u64,
                        b@.timestamp,
                    )
                },
                Err(e) => {
                    &&& (e == Error::ClockError || e == Error::MiningExhausted)
                    &&& e == Error::MiningExhausted ==> exists|ts: u128|
                        #[trigger] mining_exhausted_at(
                            Seq::<char>::empty(),
                            genesis_payload@,
                            ts,
                            DEFAULT_DIFFICULTY as u64,
                        )
                },
            },
    {
        Block::new_block(genesis_payload, String::new(), 0)
    }
}

/// Law: a mined block always validates under its own difficulty.
pub proof fn lemma_mined_block_validates(
    m: BlockModel,
    prev_block_hash: Seq<char>,
    transactions: Seq<char>,
    height: u64,
    difficulty: u64,
    timestamp: u128,
)
    requires
        mine_post(m, prev_block_hash, transactions, height, difficulty, timestamp),
    ensures
        validate_spec(m, difficulty),
{
}

/// Law: mining is deterministic. Two blocks mined from identical fields
/// under the same difficulty are equal in every field, the hash included.
pub proof fn lemma_mine_deterministic(
    m1: BlockModel,
    m2: BlockModel,
    prev_block_hash: Seq<char>,
    transactions: Seq<char>,
    height: u64,
    difficulty: u64,
    timestamp: u128,
)
    requires
        mine_post(m1, prev_block_hash, transactions, height, difficulty, timestamp),
        mine_post(m2, prev_block_hash, transactions, height, difficulty, timestamp),
    ensures
        m1 == m2,
{
    if m1.nonce < m2.nonce {
        assert(!pow_ok(
            block_hash(prev_block_hash, transactions, timestamp, difficulty, m1.nonce),
            difficulty as int,
        ));
    }
    if m2.nonce < m1.nonce {
        assert(!pow_ok(
            block_hash(prev_block_hash, transactions, timestamp, difficulty, m2.nonce),
            difficulty as int,
        ));
    }
    assert(m1.nonce == m2.nonce);
    assert(m1 =~= m2);
}

} // verus!
