//! SHA-256 hashing of a block's canonical bytes. The digest itself comes
//! from an outside crate; its result is given a name here, and everything
//! the rest of the library needs of it is stated beside that name.

use vstd::prelude::*;
use vstd::utf8::is_ascii_chars;

verus! {

/// The SHA-256 digest of the given bytes, as lowercase hex characters.
/// The digest is a function of the input bytes alone.
pub uninterp spec fn sha256_hex_of(data: Seq<u8>) -> Seq<char>;

/// A lowercase hexadecimal digit.
pub open spec fn is_hex_char(c: char) -> bool {
    ('0' <= c && c <= '9') || ('a' <= c && c <= 'f')
}

/// Every sequence of lowercase hexadecimal digits is ASCII.
pub proof fn lemma_hex_chars_ascii(s: Seq<char>)
    requires
        forall|i: int| 0 <= i < s.len() ==> is_hex_char(#[trigger] s[i]),
    ensures
        is_ascii_chars(s),
{
    assert forall|i: int| 0 <= i < s.len() implies '\0' <= #[trigger] s[i] <= '\u{7f}' by {
        assert(is_hex_char(s[i]));
    }
}

/// Relies on rust-crypto's `Sha256` through its `Digest` trait:
/// `result_str` returns the 256-bit digest of the input fed so far,
/// rendered as 64 lowercase hexadecimal characters.
#[verifier::external_body]
pub(crate) fn sha256_hex(data: &[u8]) -> (r: String)
    ensures
        r@ == sha256_hex_of(data@),
        r@.len() == 64,
        forall|i: int| 0 <= i < 64 ==> is_hex_char(#[trigger] r@[i]),
{
    let mut hasher = crypto::sha2::Sha256::new();
    crypto::digest::Digest::input(&mut hasher, data);
    crypto::digest::Digest::result_str(&mut hasher)
}

} // verus!
