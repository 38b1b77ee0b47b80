//! The one string operation the library needs from std that vstd gives
//! no specification for: building a `String` from UTF-8 bytes.

use vstd::prelude::*;
use vstd::utf8::{valid_utf8, encode_utf8};

verus! {

/// Relies on `String::from_utf8`: returns the string whose UTF-8 bytes
/// are exactly the input when the input is valid UTF-8, and fails
/// otherwise.
#[verifier::external_body]
pub(crate) fn string_from_utf8(v: Vec<u8>) -> (r: Option<String>)
    ensures
        match r {
            Some(s) => valid_utf8(v@) && encode_utf8(s@) == v@,
            None => !valid_utf8(v@),
        },
{
    match String::from_utf8(v) {
        Ok(s) => Some(s),
        Err(_) => None,
    }
}

} // verus!
