//! Building strings out of ASCII bytes.
//!
//! Both textual identifier grammars consist of ASCII bytes only, so the
//! executable code works on UTF-8 bytes throughout and turns a finished
//! rendering into a `String` in one step here.

use vstd::prelude::*;
use vstd::utf8::encode_utf8;

verus! {

/// Relies on `String::from_utf8`: the returned string holds exactly the
/// given bytes, and ASCII bytes decode one-for-one to the characters with
/// the same codes. The ASCII precondition keeps the conversion total.
#[verifier::external_body]
pub(crate) fn ascii_to_string(bytes: Vec<u8>) -> (r: String)
    requires
        forall|i: int| 0 <= i < bytes@.len() ==> bytes@[i] < 0x80,
    ensures
        r@ == bytes@.map_values(|b: u8| b as char),
        encode_utf8(r@) == bytes@,
{
    match String::from_utf8(bytes) {
        Ok(s) => s,
        Err(_) => String::new(),
    }
}

} // verus!
