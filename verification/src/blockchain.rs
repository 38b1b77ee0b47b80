//! The persistent chain manager: a content-addressed store of blocks
//! plus one mutable tip pointer, kept consistent across appends and
//! restarts, with a backward iterator from the tip to genesis.

use vstd::prelude::*;
use vstd::utf8::{encode_utf8, decode_utf8, valid_utf8, is_ascii_chars};
use vstd::utf8::{encode_utf8_valid_utf8, encode_utf8_decode_utf8};
use crate::block::Block;
use crate::block::validate_spec;
use crate::clock::now_millis;
use crate::codec::{decode_model, encode_model, decode_block, encode_block};
use crate::codec::lemma_decode_encode;
use crate::digest::lemma_hex_chars_ascii;
use crate::errors::Error;
use crate::kv::{KvStore, kv_contents};
use crate::strutil::string_from_utf8;
use vstd::string::StrSliceExecFns;

verus! {

/// The store `v` holds a well-formed chain of height `h` ending at the
/// record keyed `hash`: the record decodes to a block whose own hash is
/// the key (64 ASCII hex characters long), whose height is `h`, and
/// whose parent link is empty exactly at genesis and otherwise leads to
/// a well-formed chain one lower.
pub open spec fn chain_ok(v: Map<Seq<char>, Seq<u8>>, hash: Seq<char>, h: nat) -> bool
    decreases h,
{
    &&& v.dom().contains(hash)
    &&& match decode_model(v[hash]) {
        Some(m) => {
            &&& m.hash == hash
            &&& m.hash.len() == 64
            &&& is_ascii_chars(m.hash)
            &&& m.height == h
            &&& if h == 0 {
                m.prev_block_hash.len() == 0
            } else {
                &&& m.prev_block_hash.len() > 0
                &&& chain_ok(v, m.prev_block_hash, (h - 1) as nat)
            }
        },
        None => false,
    }
}

/// The height of the chain ending at `hash`, where one exists.
pub open spec fn chain_height(v: Map<Seq<char>, Seq<u8>>, hash: Seq<char>) -> nat {
    choose|h: nat| chain_ok(v, hash, h)
}

/// The store holds a tip pointer.
pub open spec fn store_has_tip(v: Map<Seq<char>, Seq<u8>>) -> bool {
    v.dom().contains("tip"@)
}

/// The hash the tip pointer names; meaningful when the pointer's bytes
/// are valid UTF-8.
pub open spec fn tip_hash_of(v: Map<Seq<char>, Seq<u8>>) -> Seq<char> {
    decode_utf8(v["tip"@])
}

/// An internally consistent store: a tip pointer exists, reads as a
/// string, and a well-formed chain ends at the record it names.
pub open spec fn store_intact(v: Map<Seq<char>, Seq<u8>>) -> bool {
    &&& store_has_tip(v)
    &&& valid_utf8(v["tip"@])
    &&& exists|h: nat| chain_ok(v, tip_hash_of(v), h)
}

/// A chain's height is determined by its tip record.
pub proof fn lemma_chain_ok_unique(v: Map<Seq<char>, Seq<u8>>, hash: Seq<char>, h1: nat, h2: nat)
    requires
        chain_ok(v, hash, h1),
        chain_ok(v, hash, h2),
    ensures
        h1 == h2,
{
}

/// Inserting under a key of another length than a hash leaves every
/// chain intact.
pub proof fn lemma_chain_ok_insert_other_len(
    v: Map<Seq<char>, Seq<u8>>,
    hash: Seq<char>,
    h: nat,
    k: Seq<char>,
    val: Seq<u8>,
)
    requires
        chain_ok(v, hash, h),
        k.len() != 64,
    ensures
        chain_ok(v.insert(k, val), hash, h),
    decreases h,
{
    if h > 0 {
        let m = decode_model(v[hash])->Some_0;
        lemma_chain_ok_insert_other_len(v, m.prev_block_hash, (h - 1) as nat, k, val);
    }
}

/// Inserting under a key the store does not hold yet leaves every chain
/// intact.
pub proof fn lemma_chain_ok_insert_fresh(
    v: Map<Seq<char>, Seq<u8>>,
    hash: Seq<char>,
    h: nat,
    k: Seq<char>,
    val: Seq<u8>,
)
    requires
        chain_ok(v, hash, h),
        !v.dom().contains(k),
    ensures
        chain_ok(v.insert(k, val), hash, h),
    decreases h,
{
    if h > 0 {
        let m = decode_model(v[hash])->Some_0;
        lemma_chain_ok_insert_fresh(v, m.prev_block_hash, (h - 1) as nat, k, val);
    }
}

/// The chain state: the on-disk store and the hash of the head block.
pub struct Blockchain {
    pub current_hash: String,
    pub store: KvStore,
}

/// A lazy backward traversal: from the seed hash, each step yields the
/// stored block and moves to its parent, stopping at the genesis
/// sentinel. Not restartable: a fresh `iter` starts over.
pub struct BlockchainIter<'a> {
    pub current_hash: String,
    pub bc: &'a Blockchain,
}

impl<'a> BlockchainIter<'a> {
    /// Either finished, or positioned on a record that ends a chain.
    pub open spec fn valid(self) -> bool {
        self.current_hash@.len() == 0 || exists|h: nat|
            chain_ok(kv_contents(self.bc.store), self.current_hash@, h)
    }

    /// How many blocks this traversal has yet to yield.
    pub open spec fn remaining(self) -> nat {
        if self.current_hash@.len() == 0 {
            0
        } else {
            chain_height(kv_contents(self.bc.store), self.current_hash@) + 1
        }
    }

    /// Yields the block the traversal is positioned on and steps to its
    /// parent; yields nothing once past genesis, whose empty parent link
    /// is the normal end. A missing record surfaces as
    /// `ChainIntegrityError` and an undecodable one as
    /// `SerializationError`, never as a silent stop; over a well-formed
    /// chain only a backend I/O failure is possible.
    pub fn next(&mut self) -> (r: Result<Option<Block>, Error>)
        ensures
            final(self).bc == old(self).bc,
            old(self).valid() ==> final(self).valid(),
            old(self).current_hash@.len() == 0 ==> r == Ok::<Option<Block>, Error>(None),
            ({
                let v = kv_contents(old(self).bc.store);
                let cur = old(self).current_hash@;
                &&& (cur.len() > 0 && !v.dom().contains(cur) ==> (r == Err::<
                    Option<Block>,
                    Error,
                >(Error::ChainIntegrityError) || r == Err::<Option<Block>, Error>(
                    Error::StoreIOError,
                )))
                &&& (cur.len() > 0 && v.dom().contains(cur) && decode_model(v[cur]) is None ==> (r
                    == Err::<Option<Block>, Error>(Error::SerializationError) || r == Err::<
                    Option<Block>,
                    Error,
                >(Error::StoreIOError)))
                &&& match r {
                    Ok(Some(b)) => {
                        &&& cur.len() > 0
                        &&& v.dom().contains(cur)
                        &&& decode_model(v[cur]) == Some(b@)
                        &&& final(self).current_hash@ == b@.prev_block_hash
                        &&& (old(self).valid() ==> b@.hash == cur && b@.height + 1 == old(
                            self,
                        ).remaining() && final(self).remaining() + 1 == old(self).remaining())
                    },
                    Ok(None) => cur.len() == 0 && *final(self) == *old(self),
                    Err(e) => {
                        &&& cur.len() > 0
                        &&& (e == Error::StoreIOError || e == Error::ChainIntegrityError || e
                            == Error::SerializationError)
                        &&& (e == Error::ChainIntegrityError ==> !v.dom().contains(cur))
                        &&& (e == Error::SerializationError ==> v.dom().contains(cur)
                            && decode_model(v[cur]) is None)
                        &&& (old(self).valid() ==> e == Error::StoreIOError)
                    },
                }
            }),
    {
        if self.current_hash.as_str().is_empty() {
            return Ok(None);
        }
        let ghost v = kv_contents(self.bc.store);
        let ghost h = choose|h: nat| chain_ok(v, self.current_hash@, h);
        let got = match self.bc.store.get(self.current_hash.as_str()) {
            Err(e) => { return Err(e); },
            Ok(g) => g,
        };
        let bytes = match got {
            None => { return Err(Error::ChainIntegrityError); },
            Some(b) => b,
        };
        let blk = match decode_block(bytes.as_slice()) {
            Err(_) => { return Err(Error::SerializationError); },
            Ok(b) => b,
        };
        self.current_hash = blk.get_prev_hash();
        proof {
            let cur0 = old(self).current_hash@;
            if old(self).valid() {
                assert(chain_ok(v, cur0, h));
                assert(blk@.hash == cur0);
                lemma_chain_ok_unique(v, cur0, h, chain_height(v, cur0));
                if h > 0 {
                    assert(chain_ok(v, blk@.prev_block_hash, (h - 1) as nat));
                    lemma_chain_ok_unique(
                        v,
                        blk@.prev_block_hash,
                        (h - 1) as nat,
                        chain_height(v, blk@.prev_block_hash),
                    );
                    assert(chain_ok(
                        kv_contents(self.bc.store),
                        self.current_hash@,
                        (h - 1) as nat,
                    ));
                    assert(self.valid());
                } else {
                    assert(blk@.prev_block_hash.len() == 0);
                    assert(self.valid());
                }
            }
        }
        Ok(Some(blk))
    }
}

/// Re-derives a chain of the given height ending at `hash` from the
/// store, step by step down to genesis.
fn check_chain(store: &KvStore, hash: &String, height: usize) -> (r: Result<(), Error>)
    ensures
        r is Ok ==> chain_ok(kv_contents(*store), hash@, height as nat),
        r is Err ==> (r == Err::<(), Error>(Error::StoreIOError) || r == Err::<(), Error>(
            Error::SerializationError,
        ) || r == Err::<(), Error>(Error::ChainIntegrityError)),
        r is Err && r != Err::<(), Error>(Error::StoreIOError) ==> !chain_ok(
            kv_contents(*store),
            hash@,
            height as nat,
        ),
    decreases height,
{
    let got = match store.get(hash.as_str()) {
        Err(e) => { return Err(e); },
        Ok(g) => g,
    };
    let bytes = match got {
        None => { return Err(Error::ChainIntegrityError); },
        Some(b) => b,
    };
    let blk = match decode_block(bytes.as_slice()) {
        Err(_) => { return Err(Error::SerializationError); },
        Ok(b) => b,
    };
    if !(blk.hash == *hash) {
        return Err(Error::ChainIntegrityError);
    }
    if blk.height != height {
        return Err(Error::ChainIntegrityError);
    }
    let hs = blk.hash.as_str();
    if !hs.is_ascii() {
        return Err(Error::ChainIntegrityError);
    }
    if hs.unicode_len() != 64 {
        return Err(Error::ChainIntegrityError);
    }
    if height == 0 {
        if blk.prev_block_hash.as_str().is_empty() {
            Ok(())
        } else {
            Err(Error::ChainIntegrityError)
        }
    } else {
        if blk.prev_block_hash.as_str().is_empty() {
            return Err(Error::ChainIntegrityError);
        }
        check_chain(store, &blk.prev_block_hash, height - 1)
    }
}

impl Blockchain {
    /// The store holds the tip pointer, the pointer names the head
    /// block's hash, and a well-formed chain ends there.
    pub open spec fn wf(self) -> bool {
        let v = kv_contents(self.store);
        &&& v.dom().contains("tip"@)
        &&& v["tip"@] == encode_utf8(self.current_hash@)
        &&& exists|h: nat| chain_ok(v, self.current_hash@, h)
    }

    /// The height of the chain this state holds.
    pub open spec fn height(self) -> nat {
        chain_height(kv_contents(self.store), self.current_hash@)
    }

    /// Opens an existing chain at `path`: `KvStore::open` followed by
    /// `attach`, which carries the exact contract.
    pub fn new(path: &str) -> (r: Result<Blockchain, Error>)
        ensures
            r is Ok ==> r->Ok_0.wf(),
            r is Err ==> (r->Err_0 == Error::StoreIOError || r->Err_0 == Error::Uninitialized
                || r->Err_0 == Error::SerializationError || r->Err_0
                == Error::ChainIntegrityError),
    {
        match KvStore::open(path) {
            Err(e) => Err(e),
            Ok(store) => Blockchain::attach(store),
        }
    }

    /// Attaches to an opened store without writing to it: fails with
    /// `Uninitialized` when no tip pointer exists, with
    /// `SerializationError` on an unreadable pointer or record, and with
    /// `ChainIntegrityError` when the pointer dangles or a backward link
    /// is broken — a fresh chain is never silently created. On an intact
    /// store only a backend I/O failure is possible, and on success the
    /// on-disk pointer alone names the head.
    pub fn attach(store: KvStore) -> (r: Result<Blockchain, Error>)
        ensures
            match r {
                Ok(bc) => {
                    let v = kv_contents(store);
                    &&& bc.wf()
                    &&& kv_contents(bc.store) == v
                    &&& store_intact(v)
                    &&& bc.current_hash@ == tip_hash_of(v)
                },
                Err(e) => {
                    let v = kv_contents(store);
                    &&& (e == Error::StoreIOError || e == Error::Uninitialized || e
                        == Error::SerializationError || e == Error::ChainIntegrityError)
                    &&& e != Error::StoreIOError ==> !store_intact(v)
                    &&& e == Error::Uninitialized ==> !store_has_tip(v)
                    &&& !store_has_tip(v) ==> (e == Error::Uninitialized || e
                        == Error::StoreIOError)
                    &&& e == Error::SerializationError ==> store_has_tip(v)
                    &&& e == Error::ChainIntegrityError ==> store_has_tip(v) && valid_utf8(
                        v["tip"@],
                    )
                    &&& (store_has_tip(v) && !valid_utf8(v["tip"@]) ==> (e
                        == Error::SerializationError || e == Error::StoreIOError))
                    &&& (store_has_tip(v) && valid_utf8(v["tip"@]) && !v.dom().contains(
                        tip_hash_of(v),
                    ) ==> (e == Error::ChainIntegrityError || e == Error::StoreIOError))
                },
            },
    {
        let ghost v = kv_contents(store);
        let last = match store.get("tip") {
            Err(e) => { return Err(e); },
            Ok(l) => l,
        };
        let last_bytes = match last {
            None => { return Err(Error::Uninitialized); },
            Some(b) => b,
        };
        let tip = match string_from_utf8(last_bytes) {
            None => { return Err(Error::SerializationError); },
            Some(s) => s,
        };
        proof {
            encode_utf8_decode_utf8(tip@);
            assert(tip@ == tip_hash_of(v));
        }
        let got = match store.get(tip.as_str()) {
            Err(e) => { return Err(e); },
            Ok(g) => g,
        };
        let bytes = match got {
            None => {
                proof {
                    if store_intact(v) {
                        let h = choose|h: nat| chain_ok(v, tip_hash_of(v), h);
                        assert(chain_ok(v, tip@, h));
                        assert(false);
                    }
                }
                return Err(Error::ChainIntegrityError);
            },
            Some(b) => b,
        };
        let head = match decode_block(bytes.as_slice()) {
            Err(_) => {
                proof {
                    if store_intact(v) {
                        let h = choose|h: nat| chain_ok(v, tip_hash_of(v), h);
                        assert(chain_ok(v, tip@, h));
                        assert(false);
                    }
                }
                return Err(Error::SerializationError);
            },
            Ok(b) => b,
        };
        match check_chain(&store, &tip, head.height) {
            Err(e) => {
                proof {
                    if store_intact(v) {
                        let h = choose|h: nat| chain_ok(v, tip_hash_of(v), h);
                        assert(chain_ok(v, tip@, h));
                        assert(h == head.height as nat);
                        assert(chain_ok(v, tip@, head.height as nat));
                    }
                }
                Err(e)
            },
            Ok(_) => {
                let bc = Blockchain { current_hash: tip, store };
                proof {
                    assert(v.dom().contains("tip"@));
                    assert(v["tip"@] == encode_utf8(bc.current_hash@));
                    assert(chain_ok(v, bc.current_hash@, head.height as nat));
                    assert(chain_ok(v, tip_hash_of(v), head.height as nat));
                    assert(bc.wf());
                }
                Ok(bc)
            },
        }
    }

    /// Opens the backend at `path` and initializes a chain on it:
    /// `KvStore::open` followed by `create_on`, which carries the exact
    /// contract.
    pub fn create_blockchain(path: &str, genesis_payload: String, difficulty: usize) -> (r: Result<
        Blockchain,
        Error,
    >)
        ensures
            match r {
                Ok(bc) => {
                    let v = kv_contents(bc.store);
                    &&& bc.wf()
                    &&& chain_ok(v, bc.current_hash@, 0)
                    &&& bc.height() == 0
                    &&& ({
                        let m = decode_model(v[bc.current_hash@])->Some_0;
                        &&& m.transactions == genesis_payload@
                        &&& m.height == 0
                        &&& m.prev_block_hash.len() == 0
                        &&& validate_spec(m, difficulty as u64)
                    })
                },
                Err(e) => e == Error::AlreadyInitialized || e == Error::ClockError || e
                    == Error::MiningExhausted || e == Error::StoreIOError,
            },
    {
        let store = match KvStore::open(path) {
            Err(e) => { return Err(e); },
            Ok(s) => s,
        };
        match Blockchain::create_on(store, genesis_payload, difficulty) {
            Err((_, e)) => Err(e),
            Ok(bc) => Ok(bc),
        }
    }

    /// Initializes a chain on an opened store: mines the genesis block
    /// over the given payload, inserts exactly its record and the tip
    /// pointer, and flushes before reporting success. A store that
    /// already holds a tip pointer is handed back untouched with
    /// `AlreadyInitialized`: an existing chain is never overwritten; a
    /// clock or mining failure also leaves the store unwritten.
    pub fn create_on(store: KvStore, genesis_payload: String, difficulty: usize) -> (r: Result<
        Blockchain,
        (KvStore, Error),
    >)
        ensures
            match r {
                Ok(bc) => {
                    let v0 = kv_contents(store);
                    let v = kv_contents(bc.store);
                    &&& !store_has_tip(v0)
                    &&& bc.wf()
                    &&& chain_ok(v, bc.current_hash@, 0)
                    &&& bc.height() == 0
                    &&& v == v0.insert(bc.current_hash@, v[bc.current_hash@]).insert(
                        "tip"@,
                        encode_utf8(bc.current_hash@),
                    )
                    &&& ({
                        let m = decode_model(v[bc.current_hash@])->Some_0;
                        &&& m.transactions == genesis_payload@
                        &&& m.height == 0
                        &&& m.prev_block_hash.len() == 0
                        &&& validate_spec(m, difficulty as u64)
                    })
                },
                Err((s, e)) => {
                    let v0 = kv_contents(store);
                    &&& (e == Error::AlreadyInitialized || e == Error::ClockError || e
                        == Error::MiningExhausted || e == Error::StoreIOError)
                    &&& e == Error::AlreadyInitialized ==> store_has_tip(v0) && kv_contents(s)
                        == v0
                    &&& store_has_tip(v0) ==> (e == Error::AlreadyInitialized || e
                        == Error::StoreIOError)
                    &&& (e == Error::ClockError || e == Error::MiningExhausted) ==> kv_contents(s)
                        == v0
                },
            },
    {
        let mut store = store;
        let ghost v0 = kv_contents(store);
        match store.get("tip") {
            Err(e) => { return Err((store, e)); },
            Ok(Some(_)) => { return Err((store, Error::AlreadyInitialized)); },
            Ok(None) => {},
        }
        let timestamp = match now_millis() {
            Err(e) => { return Err((store, e)); },
            Ok(t) => t,
        };
        let genesis = match Block::mine(String::new(), genesis_payload, 0, difficulty, timestamp) {
            Err(e) => { return Err((store, e)); },
            Ok(b) => b,
        };
        let enc = encode_block(&genesis);
        match store.insert(genesis.hash.as_str(), enc.as_slice()) {
            Err(e) => { return Err((store, e)); },
            Ok(_) => {},
        }
        let tip_value = genesis.hash.as_str().as_bytes();
        match store.insert("tip", tip_value) {
            Err(e) => { return Err((store, e)); },
            Ok(_) => {},
        }
        match store.flush() {
            Err(e) => { return Err((store, e)); },
            Ok(_) => {},
        }
        let bc = Blockchain { current_hash: genesis.get_hash(), store };
        proof {
            reveal_strlit("tip");
            let v = kv_contents(bc.store);
            let gh = genesis@.hash;
            lemma_hex_chars_ascii(gh);
            lemma_decode_encode(genesis@);
            assert(v[gh] == encode_model(genesis@));
            assert(chain_ok(v, gh, 0));
            lemma_chain_ok_unique(v, gh, 0, chain_height(v, gh));
            assert(bc.current_hash@ == gh);
            assert(v.dom().contains("tip"@));
            assert(v["tip"@] == encode_utf8(bc.current_hash@));
            assert(bc.wf());
            assert(v == v0.insert(gh, enc@).insert("tip"@, encode_utf8(gh)));
            assert(v == v0.insert(gh, v[gh]).insert("tip"@, encode_utf8(gh)));
        }
        Ok(bc)
    }

    /// Reads the tip, mines a new block whose parent is the tip and
    /// whose height is one above it, inserts the block, advances the tip
    /// pointer and flushes before reporting success. The new tip resolves
    /// to the new block, and the rest of the store is unchanged.
    pub fn add_block(&mut self, data: String, difficulty: usize) -> (r: Result<Block, Error>)
        requires
            old(self).wf(),
        ensures
            match r {
                Ok(b) => {
                    &&& final(self).wf()
                    &&& b@.prev_block_hash == old(self).current_hash@
                    &&& b@.height == old(self).height() + 1
                    &&& b@.transactions == data@
                    &&& validate_spec(b@, difficulty as u64)
                    &&& !kv_contents(old(self).store).dom().contains(b@.hash)
                    &&& final(self).current_hash@ == b@.hash
                    &&& final(self).height() == old(self).height() + 1
                    &&& kv_contents(final(self).store) == kv_contents(old(self).store).insert(
                        b@.hash,
                        encode_model(b@),
                    ).insert("tip"@, encode_utf8(b@.hash))
                },
                Err(e) => {
                    &&& (e == Error::StoreIOError || e == Error::ClockError || e
                        == Error::MiningExhausted || e == Error::ChainIntegrityError)
                    &&& final(self).current_hash@ == old(self).current_hash@
                },
            },
    {
        let ghost v0 = kv_contents(old(self).store);
        let ghost h0 = choose|h: nat| chain_ok(v0, old(self).current_hash@, h);
        proof {
            encode_utf8_valid_utf8(old(self).current_hash@);
            encode_utf8_decode_utf8(old(self).current_hash@);
        }
        let last = match self.store.get("tip") {
            Err(e) => { return Err(e); },
            Ok(l) => l,
        };
        let last_bytes = match last {
            None => { return Err(Error::ChainIntegrityError); },
            Some(b) => b,
        };
        let tip = match string_from_utf8(last_bytes) {
            None => { return Err(Error::ChainIntegrityError); },
            Some(s) => s,
        };
        proof {
            encode_utf8_decode_utf8(tip@);
            assert(tip@ == old(self).current_hash@);
        }
        let got = match self.store.get(tip.as_str()) {
            Err(e) => { return Err(e); },
            Ok(g) => g,
        };
        let bytes = match got {
            None => { return Err(Error::ChainIntegrityError); },
            Some(b) => b,
        };
        let tip_blk = match decode_block(bytes.as_slice()) {
            Err(_) => { return Err(Error::ChainIntegrityError); },
            Ok(b) => b,
        };
        if tip_blk.height == usize::MAX {
            // the next height would not be representable
            return Err(Error::ChainIntegrityError);
        }
        let timestamp = match now_millis() {
            Err(e) => { return Err(e); },
            Ok(t) => t,
        };
        let nb = match Block::mine(tip, data, tip_blk.height + 1, difficulty, timestamp) {
            Err(e) => { return Err(e); },
            Ok(b) => b,
        };
        match self.store.get(nb.hash.as_str()) {
            Err(e) => { return Err(e); },
            // a record under this hash exists already: content addressing
            // forbids overwriting it
            Ok(Some(_)) => { return Err(Error::ChainIntegrityError); },
            Ok(None) => {},
        }
        let enc = encode_block(&nb);
        match self.store.insert(nb.hash.as_str(), enc.as_slice()) {
            Err(e) => { return Err(e); },
            Ok(_) => {},
        }
        let tip_value = nb.hash.as_str().as_bytes();
        match self.store.insert("tip", tip_value) {
            Err(e) => { return Err(e); },
            Ok(_) => {},
        }
        match self.store.flush() {
            Err(e) => { return Err(e); },
            Ok(_) => {},
        }
        self.current_hash = nb.get_hash();
        proof {
            reveal_strlit("tip");
            let v2 = kv_contents(self.store);
            let nh = nb@.hash;
            let cur0 = old(self).current_hash@;
            lemma_hex_chars_ascii(nh);
            lemma_decode_encode(nb@);
            lemma_chain_ok_insert_fresh(v0, cur0, h0, nh, enc@);
            lemma_chain_ok_insert_other_len(
                v0.insert(nh, enc@),
                cur0,
                h0,
                "tip"@,
                encode_utf8(nh),
            );
            assert(v2[nh] == encode_model(nb@));
            assert(chain_ok(v2, cur0, h0));
            let m2 = decode_model(v2[nh])->Some_0;
            assert(m2 == nb@);
            assert(m2.hash == nh);
            assert(m2.hash.len() == 64);
            assert(is_ascii_chars(m2.hash));
            assert(m2.height == h0 + 1);
            assert(m2.prev_block_hash == cur0);
            assert(m2.prev_block_hash.len() > 0);
            assert(chain_ok(v2, m2.prev_block_hash, h0));
            assert(chain_ok(v2, nh, h0 + 1));
            lemma_chain_ok_unique(v0, cur0, h0, chain_height(v0, cur0));
            lemma_chain_ok_unique(v2, nh, h0 + 1, chain_height(v2, nh));
            assert(self.current_hash@ == nh);
            assert(kv_contents(self.store) == v2);
            assert(v2.dom().contains("tip"@));
            assert(v2["tip"@] == encode_utf8(nh));
            assert(self.wf());
        }
        Ok(nb)
    }

    /// A fresh backward traversal seeded at the tip.
    pub fn iter(&self) -> (it: BlockchainIter)
        requires
            self.wf(),
        ensures
            it.valid(),
            it.bc == self,
            it.current_hash@ == self.current_hash@,
            it.remaining() == self.height() + 1,
    {
        let it = BlockchainIter { current_hash: self.current_hash.clone(), bc: self };
        proof {
            let v = kv_contents(self.store);
            let h = choose|h: nat| chain_ok(v, self.current_hash@, h);
            assert(chain_ok(v, self.current_hash@, h));
            lemma_chain_ok_unique(v, self.current_hash@, h, chain_height(v, self.current_hash@));
            assert(chain_ok(kv_contents(it.bc.store), it.current_hash@, h));
            assert(it.valid());
        }
        it
    }

    /// Law: one traversal from the tip yields exactly `height + 1`
    /// blocks, the tip first, heights strictly descending to the genesis
    /// block, whose parent link is empty.
    pub fn blocks(&self) -> (r: Result<Vec<Block>, Error>)
        requires
            self.wf(),
        ensures
            match r {
                Ok(out) => {
                    let n = self.height() + 1;
                    &&& out@.len() == n
                    &&& (forall|i: int| 0 <= i < n ==> #[trigger] out@[i]@.height == n - 1 - i)
                    &&& out@[0]@.hash == self.current_hash@
                    &&& (forall|i: int|
                        0 <= i < n - 1 ==> #[trigger] out@[i]@.prev_block_hash == out@[i
                            + 1]@.hash)
                    &&& out@[n - 1]@.prev_block_hash.len() == 0
                },
                Err(e) => e == Error::StoreIOError,
            },
    {
        let ghost n = self.height() + 1;
        let mut out: Vec<Block> = Vec::new();
        let mut it = self.iter();
        loop
            invariant
                self.wf(),
                it.valid(),
                it.bc == self,
                out@.len() + it.remaining() == n,
                forall|i: int| 0 <= i < out@.len() ==> #[trigger] out@[i]@.height == n - 1 - i,
                out@.len() == 0 ==> it.current_hash@ == self.current_hash@,
                out@.len() > 0 ==> out@[0]@.hash == self.current_hash@,
                out@.len() > 0 ==> out@[out@.len() - 1]@.prev_block_hash == it.current_hash@,
                forall|i: int|
                    0 <= i < out@.len() - 1 ==> #[trigger] out@[i]@.prev_block_hash == out@[i
                        + 1]@.hash,
            ensures
                out@.len() == n,
                forall|i: int| 0 <= i < n ==> #[trigger] out@[i]@.height == n - 1 - i,
                out@[0]@.hash == self.current_hash@,
                forall|i: int|
                    0 <= i < n - 1 ==> #[trigger] out@[i]@.prev_block_hash == out@[i + 1]@.hash,
                out@[n - 1]@.prev_block_hash.len() == 0,
            decreases it.remaining(),
        {
            match it.next() {
                Err(e) => { return Err(e); },
                Ok(None) => { break ; },
                Ok(Some(b)) => { out.push(b); },
            }
        }
        Ok(out)
    }

    /// The hash of the most recently appended block.
    pub fn tip(&self) -> (r: String)
        ensures
            r@ == self.current_hash@,
    {
        self.current_hash.clone()
    }

    /// The stored block at the given hash, if one is stored there.
    pub fn get(&self, hash: &str) -> (r: Result<Option<Block>, Error>)
        ensures
            match r {
                Ok(Some(b)) => kv_contents(self.store).dom().contains(hash@) && decode_model(
                    kv_contents(self.store)[hash@],
                ) == Some(b@),
                Ok(None) => !kv_contents(self.store).dom().contains(hash@),
                Err(e) => e == Error::StoreIOError || (e == Error::SerializationError
                    && kv_contents(self.store).dom().contains(hash@) && decode_model(
                    kv_contents(self.store)[hash@],
                ) is None),
            },
    {
        match self.store.get(hash) {
            Err(e) => Err(e),
            Ok(None) => Ok(None),
            Ok(Some(bytes)) => match decode_block(bytes.as_slice()) {
                Err(e) => Err(e),
                Ok(b) => Ok(Some(b)),
            },
        }
    }
}

} // verus!
