//! Canonical byte encoding of block records and of the hashable fields.
//! A record is, in order: a version tag, the timestamp (128-bit LE), then
//! payload, previous hash and own hash as length-prefixed UTF-8, then the
//! height (64-bit LE) and the offset-coded nonce (64-bit LE). The layout
//! round-trips exactly; both directions are proved below.

use vstd::prelude::*;
use vstd::bytes::{
    spec_u64_to_le_bytes, spec_u64_from_le_bytes, spec_u128_to_le_bytes, spec_u128_from_le_bytes,
    u64_to_le_bytes, u64_from_le_bytes, u128_to_le_bytes, u128_from_le_bytes,
    lemma_auto_spec_u64_to_from_le_bytes, lemma_auto_spec_u128_to_from_le_bytes,
};
use vstd::utf8::{valid_utf8, encode_utf8, decode_utf8};
use vstd::utf8::{encode_utf8_valid_utf8, encode_utf8_decode_utf8, decode_utf8_encode_utf8};
use vstd::slice::{slice_subrange, slice_to_vec, slice_index_get};
use crate::block::Block;
use crate::errors::Error;
use crate::strutil::string_from_utf8;

verus! {

/// Version tag that every serialized block record starts with.
pub const RECORD_TAG: u8 = 1;

/// The mathematical content of a block: what its executable counterpart
/// `Block` views to, and what every contract of the library speaks of.
#[verifier::ext_equal]
pub ghost struct BlockModel {
    pub timestamp: u128,
    pub transactions: Seq<char>,
    pub prev_block_hash: Seq<char>,
    pub hash: Seq<char>,
    pub height: u64,
    pub nonce: i32,
}

/// The nonce, shifted into the non-negative range for storage.
pub open spec fn nonce_code(n: i32) -> u64 {
    (n + 0x8000_0000) as u64
}

/// A length-prefixed UTF-8 encoding of a string.
pub open spec fn enc_str(s: Seq<char>) -> Seq<u8> {
    spec_u64_to_le_bytes(encode_utf8(s).len() as u64) + encode_utf8(s)
}

/// A model whose variable-length fields fit their length prefixes.
pub open spec fn model_wf(m: BlockModel) -> bool {
    &&& encode_utf8(m.transactions).len() < 0x1_0000_0000_0000_0000
    &&& encode_utf8(m.prev_block_hash).len() < 0x1_0000_0000_0000_0000
    &&& encode_utf8(m.hash).len() < 0x1_0000_0000_0000_0000
    &&& m.height <= usize::MAX as u64
}

/// The serialized form of a block record.
pub open spec fn encode_model(m: BlockModel) -> Seq<u8> {
    seq![RECORD_TAG] + spec_u128_to_le_bytes(m.timestamp) + enc_str(m.transactions) + enc_str(
        m.prev_block_hash,
    ) + enc_str(m.hash) + spec_u64_to_le_bytes(m.height) + spec_u64_to_le_bytes(
        nonce_code(m.nonce),
    )
}

/// The bytes whose SHA-256 digest seals a block: the hashable fields in
/// canonical order, with the difficulty bound in.
pub open spec fn hash_input(
    prev_block_hash: Seq<char>,
    transactions: Seq<char>,
    timestamp: u128,
    difficulty: u64,
    nonce: i32,
) -> Seq<u8> {
    enc_str(prev_block_hash) + enc_str(transactions) + spec_u128_to_le_bytes(timestamp)
        + spec_u64_to_le_bytes(difficulty) + spec_u64_to_le_bytes(nonce_code(nonce))
}

/// Reads a 64-bit little-endian integer at `pos`.
pub open spec fn dec_u64(bytes: Seq<u8>, pos: int) -> Option<(u64, int)> {
    if 0 <= pos && pos + 8 <= bytes.len() {
        Some((spec_u64_from_le_bytes(bytes.subrange(pos, pos + 8)), pos + 8))
    } else {
        None
    }
}

/// Reads a 128-bit little-endian integer at `pos`.
pub open spec fn dec_u128(bytes: Seq<u8>, pos: int) -> Option<(u128, int)> {
    if 0 <= pos && pos + 16 <= bytes.len() {
        Some((spec_u128_from_le_bytes(bytes.subrange(pos, pos + 16)), pos + 16))
    } else {
        None
    }
}

/// Reads a length-prefixed UTF-8 string at `pos`.
pub open spec fn dec_str(bytes: Seq<u8>, pos: int) -> Option<(Seq<char>, int)> {
    match dec_u64(bytes, pos) {
        None => None,
        Some((l, p)) => {
            if p + l <= bytes.len() && valid_utf8(bytes.subrange(p, p + l)) {
                Some((decode_utf8(bytes.subrange(p, p + l)), p + l))
            } else {
                None
            }
        },
    }
}

/// The block record serialized in `bytes`, when `bytes` is exactly one
/// validly-encoded record; `None` on any mismatch, excess or truncation.
pub open spec fn decode_model(bytes: Seq<u8>) -> Option<BlockModel> {
    if bytes.len() < 1 || bytes[0] != RECORD_TAG {
        None
    } else {
        match dec_u128(bytes, 1) {
            None => None,
            Some((timestamp, p1)) => match dec_str(bytes, p1) {
                None => None,
                Some((transactions, p2)) => match dec_str(bytes, p2) {
                    None => None,
                    Some((prev_block_hash, p3)) => match dec_str(bytes, p3) {
                        None => None,
                        Some((hash, p4)) => match dec_u64(bytes, p4) {
                            None => None,
                            Some((height, p5)) => match dec_u64(bytes, p5) {
                                None => None,
                                Some((ncode, p6)) => {
                                    if p6 == bytes.len() && ncode < 0x1_0000_0000 && height
                                        <= usize::MAX as u64 {
                                        Some(
                                            BlockModel {
                                                timestamp,
                                                transactions,
                                                prev_block_hash,
                                                hash,
                                                height,
                                                nonce: (ncode - 0x8000_0000) as i32,
                                            },
                                        )
                                    } else {
                                        None
                                    }
                                },
                            },
                        },
                    },
                },
            },
        }
    }
}

/// Law: decoding an encoded block gives back the block, for every model
/// whose variable-length fields fit their length prefixes.
#[verifier::rlimit(50)]
pub proof fn lemma_decode_encode(m: BlockModel)
    requires
        model_wf(m),
    ensures
        decode_model(encode_model(m)) == Some(m),
{
    lemma_auto_spec_u64_to_from_le_bytes();
    lemma_auto_spec_u128_to_from_le_bytes();
    let e1 = encode_utf8(m.transactions);
    let e2 = encode_utf8(m.prev_block_hash);
    let e3 = encode_utf8(m.hash);
    encode_utf8_valid_utf8(m.transactions);
    encode_utf8_valid_utf8(m.prev_block_hash);
    encode_utf8_valid_utf8(m.hash);
    encode_utf8_decode_utf8(m.transactions);
    encode_utf8_decode_utf8(m.prev_block_hash);
    encode_utf8_decode_utf8(m.hash);
    let b = encode_model(m);
    let p1: int = 17;
    let p2: int = p1 + 8 + e1.len();
    let p3: int = p2 + 8 + e2.len();
    let p4: int = p3 + 8 + e3.len();
    let p5: int = p4 + 8;
    let p6: int = p5 + 8;
    assert(b.len() == p6);
    assert(b[0] == RECORD_TAG);
    assert(b.subrange(1, 17) =~= spec_u128_to_le_bytes(m.timestamp));
    assert(dec_u128(b, 1) == Some((m.timestamp, p1)));
    assert(b.subrange(p1, p1 + 8) =~= spec_u64_to_le_bytes(e1.len() as u64));
    assert(b.subrange(p1 + 8, p2) =~= e1);
    assert(dec_str(b, p1) == Some((m.transactions, p2)));
    assert(b.subrange(p2, p2 + 8) =~= spec_u64_to_le_bytes(e2.len() as u64));
    assert(b.subrange(p2 + 8, p3) =~= e2);
    assert(dec_str(b, p2) == Some((m.prev_block_hash, p3)));
    assert(b.subrange(p3, p3 + 8) =~= spec_u64_to_le_bytes(e3.len() as u64));
    assert(b.subrange(p3 + 8, p4) =~= e3);
    assert(dec_str(b, p3) == Some((m.hash, p4)));
    assert(b.subrange(p4, p4 + 8) =~= spec_u64_to_le_bytes(m.height));
    assert(dec_u64(b, p4) == Some((m.height, p5)));
    assert(b.subrange(p5, p5 + 8) =~= spec_u64_to_le_bytes(nonce_code(m.nonce)));
    assert(dec_u64(b, p5) == Some((nonce_code(m.nonce), p6)));
    assert(decode_model(b) =~= Some(m));
}

/// Law: encoding a decoded record gives back the bytes, for every byte
/// sequence that decodes at all.
#[verifier::rlimit(50)]
pub proof fn lemma_encode_decode(bytes: Seq<u8>)
    requires
        decode_model(bytes) is Some,
    ensures
        encode_model(decode_model(bytes)->Some_0) == bytes,
{
    lemma_auto_spec_u64_to_from_le_bytes();
    lemma_auto_spec_u128_to_from_le_bytes();
    let m = decode_model(bytes)->Some_0;
    let (timestamp, p1) = dec_u128(bytes, 1)->Some_0;
    let (transactions, p2) = dec_str(bytes, p1)->Some_0;
    let (prev_block_hash, p3) = dec_str(bytes, p2)->Some_0;
    let (hash, p4) = dec_str(bytes, p3)->Some_0;
    let (height, p5) = dec_u64(bytes, p4)->Some_0;
    let (ncode, p6) = dec_u64(bytes, p5)->Some_0;
    let (l1, q1) = dec_u64(bytes, p1)->Some_0;
    let (l2, q2) = dec_u64(bytes, p2)->Some_0;
    let (l3, q3) = dec_u64(bytes, p3)->Some_0;
    let s1 = bytes.subrange(q1, q1 + l1);
    let s2 = bytes.subrange(q2, q2 + l2);
    let s3 = bytes.subrange(q3, q3 + l3);
    decode_utf8_encode_utf8(s1);
    decode_utf8_encode_utf8(s2);
    decode_utf8_encode_utf8(s3);
    assert(encode_utf8(m.transactions) =~= s1);
    assert(encode_utf8(m.prev_block_hash) =~= s2);
    assert(encode_utf8(m.hash) =~= s3);
    assert(nonce_code(m.nonce) == ncode);
    assert(spec_u128_to_le_bytes(m.timestamp) =~= bytes.subrange(1, p1));
    assert(spec_u64_to_le_bytes(s1.len() as u64) =~= bytes.subrange(p1, q1));
    assert(spec_u64_to_le_bytes(s2.len() as u64) =~= bytes.subrange(p2, q2));
    assert(spec_u64_to_le_bytes(s3.len() as u64) =~= bytes.subrange(p3, q3));
    assert(spec_u64_to_le_bytes(m.height) =~= bytes.subrange(p4, p5));
    assert(spec_u64_to_le_bytes(nonce_code(m.nonce)) =~= bytes.subrange(p5, p6));
    assert(encode_model(m) =~= bytes);
}

/// Appends the length-prefixed UTF-8 encoding of `s` to `out`.
fn push_str_field(out: &mut Vec<u8>, s: &str)
    ensures
        final(out)@ == old(out)@ + enc_str(s@),
        encode_utf8(s@).len() < 0x1_0000_0000_0000_0000,
{
    let bs = s.as_bytes();
    let mut lb = u64_to_le_bytes(bs.len() as u64);
    out.append(&mut lb);
    out.extend_from_slice(bs);
    assert(out@ =~= old(out)@ + enc_str(s@));
}

/// Serializes a block into its canonical record.
pub fn encode_block(b: &Block) -> (r: Vec<u8>)
    ensures
        r@ == encode_model(b@),
        model_wf(b@),
{
    let mut out: Vec<u8> = Vec::new();
    out.push(RECORD_TAG);
    let mut ts = u128_to_le_bytes(b.timestamp);
    out.append(&mut ts);
    push_str_field(&mut out, b.transactions.as_str());
    push_str_field(&mut out, b.prev_block_hash.as_str());
    push_str_field(&mut out, b.hash.as_str());
    let mut hb = u64_to_le_bytes(b.height as u64);
    out.append(&mut hb);
    let nc: i64 = b.nonce as i64 + 0x8000_0000;
    let mut nb = u64_to_le_bytes(nc as u64);
    out.append(&mut nb);
    assert(out@ =~= encode_model(b@));
    out
}

/// Builds the bytes whose digest seals a block.
pub(crate) fn hash_input_bytes(
    prev_block_hash: &str,
    transactions: &str,
    timestamp: u128,
    difficulty: u64,
    nonce: i32,
) -> (r: Vec<u8>)
    ensures
        r@ == hash_input(prev_block_hash@, transactions@, timestamp, difficulty, nonce),
{
    let mut out: Vec<u8> = Vec::new();
    push_str_field(&mut out, prev_block_hash);
    push_str_field(&mut out, transactions);
    let mut ts = u128_to_le_bytes(timestamp);
    out.append(&mut ts);
    let mut db = u64_to_le_bytes(difficulty);
    out.append(&mut db);
    let nc: i64 = nonce as i64 + 0x8000_0000;
    let mut nb = u64_to_le_bytes(nc as u64);
    out.append(&mut nb);
    assert(out@ =~= hash_input(prev_block_hash@, transactions@, timestamp, difficulty, nonce));
    out
}

/// Reads a 64-bit little-endian integer, as `dec_u64` does.
fn take_u64(bytes: &[u8], pos: usize) -> (r: Option<(u64, usize)>)
    requires
        pos <= bytes@.len(),
    ensures
        match r {
            Some((v, p)) => dec_u64(bytes@, pos as int) == Some((v, p as int)),
            None => dec_u64(bytes@, pos as int) is None,
        },
{
    if bytes.len() - pos >= 8 {
        let s = slice_subrange(bytes, pos, pos + 8);
        Some((u64_from_le_bytes(s), pos + 8))
    } else {
        None
    }
}

/// Reads a 128-bit little-endian integer, as `dec_u128` does.
fn take_u128(bytes: &[u8], pos: usize) -> (r: Option<(u128, usize)>)
    requires
        pos <= bytes@.len(),
    ensures
        match r {
            Some((v, p)) => dec_u128(bytes@, pos as int) == Some((v, p as int)),
            None => dec_u128(bytes@, pos as int) is None,
        },
{
    if bytes.len() - pos >= 16 {
        let s = slice_subrange(bytes, pos, pos + 16);
        Some((u128_from_le_bytes(s), pos + 16))
    } else {
        None
    }
}

/// Reads a length-prefixed UTF-8 string, as `dec_str` does.
fn take_str(bytes: &[u8], pos: usize) -> (r: Option<(String, usize)>)
    requires
        pos <= bytes@.len(),
    ensures
        match r {
            Some((s, p)) => dec_str(bytes@, pos as int) == Some((s@, p as int)),
            None => dec_str(bytes@, pos as int) is None,
        },
{
    match take_u64(bytes, pos) {
        None => None,
        Some((l, p)) => {
            if l <= (bytes.len() - p) as u64 {
                let end = p + (l as usize);
                let sub = slice_subrange(bytes, p, end);
                match string_from_utf8(slice_to_vec(sub)) {
                    None => None,
                    Some(s) => {
                        proof {
                            encode_utf8_decode_utf8(s@);
                        }
                        Some((s, end))
                    },
                }
            } else {
                None
            }
        },
    }
}

/// Deserializes one canonical block record, rejecting anything that is
/// not exactly the encoding of a block.
pub fn decode_block(bytes: &[u8]) -> (r: Result<Block, Error>)
    ensures
        match r {
            Ok(b) => decode_model(bytes@) == Some(b@),
            Err(e) => e == Error::SerializationError && decode_model(bytes@) is None,
        },
{
    if bytes.len() < 1 {
        return Err(Error::SerializationError);
    }
    if *slice_index_get(bytes, 0) != RECORD_TAG {
        return Err(Error::SerializationError);
    }
    let (timestamp, p1) = match take_u128(bytes, 1) {
        None => { return Err(Error::SerializationError); },
        Some(x) => x,
    };
    let (transactions, p2) = match take_str(bytes, p1) {
        None => { return Err(Error::SerializationError); },
        Some(x) => x,
    };
    let (prev_block_hash, p3) = match take_str(bytes, p2) {
        None => { return Err(Error::SerializationError); },
        Some(x) => x,
    };
    let (hash, p4) = match take_str(bytes, p3) {
        None => { return Err(Error::SerializationError); },
        Some(x) => x,
    };
    let (height64, p5) = match take_u64(bytes, p4) {
        None => { return Err(Error::SerializationError); },
        Some(x) => x,
    };
    let (ncode, p6) = match take_u64(bytes, p5) {
        None => { return Err(Error::SerializationError); },
        Some(x) => x,
    };
    if !(p6 == bytes.len() && ncode < 0x1_0000_0000 && height64 <= usize::MAX as u64) {
        return Err(Error::SerializationError);
    }
    let nonce: i32 = (ncode as i64 - 0x8000_0000) as i32;
    Ok(
        Block {
            timestamp,
            transactions,
            prev_block_hash,
            hash,
            height: height64 as usize,
            nonce,
        },
    )
}

} // verus!
