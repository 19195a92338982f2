//! The two identifier types and the bit-level conversions between them.
//!
//! Both types carry the same 128 bits; only the canonical textual rendering
//! differs. The bit layout follows the version-7 time-ordered UUID
//! convention: the top 48 bits are a big-endian millisecond timestamp, the
//! next 4 bits are the version field, and bits 62..64 (counted from the low
//! end) are the variant field.

use vstd::prelude::*;

use crate::error::IdError;

verus! {

/// A 128-bit identifier under the version-7 UUID convention, rendered as
/// 32 hex digits grouped 8-4-4-4-12.
#[derive(Clone, Copy, Debug, PartialEq, Eq, Structural)]
pub struct Uuid7 {
    bits: u128,
}

/// The same 128 bits rendered as 26 Crockford base32 characters.
#[derive(Clone, Copy, Debug, PartialEq, Eq, Structural)]
pub struct Ulid {
    bits: u128,
}

impl View for Uuid7 {
    type V = u128;

    closed spec fn view(&self) -> u128 {
        self.bits
    }
}

impl View for Ulid {
    type V = u128;

    closed spec fn view(&self) -> u128 {
        self.bits
    }
}

/// The 4-bit version field of an identifier's 128 bits.
pub open spec fn version_of(v: u128) -> u128 {
    (v >> 76) & 0xF
}

/// The 2-bit variant field of an identifier's 128 bits.
pub open spec fn variant_of(v: u128) -> u128 {
    (v >> 62) & 0x3
}

/// The leading 48 bits of an identifier, read as a millisecond count.
pub open spec fn timestamp_ms_of(v: u128) -> u128 {
    v >> 80
}

/// What converting a UUID to a ULID returns, as a function of the 128 bits:
/// the identical bits when the version field is 7, and otherwise the error
/// naming the version found.
pub open spec fn spec_uuid_to_ulid(v: u128) -> Result<u128, IdError> {
    if version_of(v) == 7 {
        Ok(v)
    } else {
        Err(IdError::VersionMismatch { found: version_of(v) as u8 })
    }
}

/// What converting a ULID to a UUID returns: the identical bits, always.
pub open spec fn spec_ulid_to_uuid(v: u128) -> u128 {
    v
}

impl Uuid7 {
    /// Builds the identifier holding exactly the given 128 bits.
    pub fn from_bits(bits: u128) -> (r: Uuid7)
        ensures
            r@ == bits,
    {
        Uuid7 { bits }
    }

    /// The raw 128 bits.
    pub fn to_bits(&self) -> (r: u128)
        ensures
            r == self@,
    {
        self.bits
    }

    /// The value of the 4-bit version field.
    pub fn version(&self) -> (r: u8)
        ensures
            r == version_of(self@),
    {
        let v = self.bits;
        proof {
            assert((v >> 76) & 0xF < 16) by (bit_vector);
        }
        ((v >> 76) & 0xF) as u8
    }
}

impl Ulid {
    /// Builds the identifier holding exactly the given 128 bits.
    pub fn from_bits(bits: u128) -> (r: Ulid)
        ensures
            r@ == bits,
    {
        Ulid { bits }
    }

    /// The raw 128 bits.
    pub fn to_bits(&self) -> (r: u128)
        ensures
            r == self@,
    {
        self.bits
    }

    /// The millisecond timestamp held in the leading 48 bits.
    pub fn timestamp_ms(&self) -> (r: u64)
        ensures
            r == timestamp_ms_of(self@),
            r < 0x1_0000_0000_0000,
    {
        let v = self.bits;
        proof {
            assert(v >> 80 < 0x1_0000_0000_0000) by (bit_vector);
        }
        (v >> 80) as u64
    }
}

/// Reinterprets a version-7 UUID as a ULID. The 128 bits pass through
/// unchanged; an identifier whose version field is not 7 is refused with the
/// version it does carry.
pub fn uuid_to_ulid(uuid: Uuid7) -> (r: Result<Ulid, IdError>)
    ensures
        r matches Ok(l) ==> spec_uuid_to_ulid(uuid@) matches Ok(v) && l@ == v,
        r matches Err(e) ==> spec_uuid_to_ulid(uuid@) matches Err(e2) && e == e2,
        r is Ok <==> version_of(uuid@) == 7,
{
    let version = uuid.version();
    if version != 7 {
        Err(IdError::VersionMismatch { found: version })
    } else {
        Ok(Ulid { bits: uuid.bits })
    }
}

/// Reinterprets a ULID as a version-7 UUID. The 128 bits pass through
/// unchanged and nothing is checked: the base32 form carries no version
/// notion of its own.
pub fn ulid_to_uuid(ulid: Ulid) -> (r: Uuid7)
    ensures
        r@ == spec_ulid_to_uuid(ulid@),
{
    Uuid7 { bits: ulid.bits }
}

/// Round-trip identity: a ULID obtained from a version-7 UUID converts back
/// to the identical 128 bits.
pub proof fn lemma_round_trip(v: u128)
    requires
        version_of(v) == 7,
    ensures
        spec_uuid_to_ulid(v) matches Ok(l) && spec_ulid_to_uuid(l) == v,
{
}

/// Version rejection: a UUID whose version field is not 7 is refused, the
/// error carries exactly the version found, and the error's display text
/// spells that version out after a fixed prefix.
pub proof fn lemma_version_rejection(v: u128)
    requires
        version_of(v) != 7,
    ensures
        spec_uuid_to_ulid(v) matches Err(e) && e == (IdError::VersionMismatch {
            found: version_of(v) as u8,
        }) && crate::error::spec_message(e) == "Expected UUIDv7, got UUIDv"@
            + crate::error::spec_decimal(version_of(v) as int),
{
    assert((v >> 76) & 0xF < 16) by (bit_vector);
}

} // verus!
