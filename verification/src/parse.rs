//! Parsing a user-supplied string as either identifier form.
//!
//! The hyphenated hex grammar is tried first and the base32 grammar second;
//! the two can never both match, since one asks for 36 bytes and the other
//! for 26.

use vstd::prelude::*;
use vstd::string::StringSliceAdditionalSpecFns;

use crate::base32::is_ulid_bytes;
use crate::base32::ulid_value_of;
use crate::error::IdError;
use crate::hexfmt::is_uuid_bytes;
use crate::hexfmt::uuid_value_of;
use crate::id::Ulid;
use crate::id::Uuid7;

verus! {

/// Which grammar a parsed input matched.
#[derive(Clone, Copy, Debug, PartialEq, Eq, Structural)]
pub enum ParsedInput {
    /// The input matched the hyphenated hex grammar.
    AsUuid(Uuid7),
    /// The input matched the base32 grammar.
    AsUlid(Ulid),
}

/// No byte sequence matches both grammars: their lengths differ.
pub proof fn lemma_grammars_disjoint(s: Seq<u8>)
    ensures
        !(is_uuid_bytes(s) && is_ulid_bytes(s)),
{
}

/// Reads an input string as a UUID if it matches the hyphenated hex
/// grammar, otherwise as a ULID if it matches the base32 grammar, and
/// reports `InvalidFormat` when neither fits. A 36-byte hyphenated input
/// is therefore always taken as a UUID and never tried as a ULID.
pub fn parse_input(s: &str) -> (r: Result<ParsedInput, IdError>)
    ensures
        is_uuid_bytes(s.spec_bytes()) ==> (r matches Ok(p) && p matches ParsedInput::AsUuid(u)
            && u@ == uuid_value_of(s.spec_bytes())),
        !is_uuid_bytes(s.spec_bytes()) && is_ulid_bytes(s.spec_bytes()) ==> (r matches Ok(p)
            && p matches ParsedInput::AsUlid(l) && l@ == ulid_value_of(s.spec_bytes())),
        r is Err <==> !is_uuid_bytes(s.spec_bytes()) && !is_ulid_bytes(s.spec_bytes()),
        r matches Err(e) ==> e == IdError::InvalidFormat,
{
    match Uuid7::parse(s) {
        Some(u) => Ok(ParsedInput::AsUuid(u)),
        None => match Ulid::parse(s) {
            Some(l) => Ok(ParsedInput::AsUlid(l)),
            None => Err(IdError::InvalidFormat),
        },
    }
}

} // verus!
