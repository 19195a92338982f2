//! Generating a fresh identifier from the current wall-clock time.

use vstd::prelude::*;

use crate::id::Uuid7;
use crate::id::variant_of;
use crate::id::version_of;

verus! {

/// Relies on `uuid::Uuid::new_v7` seeded with `uuid::Timestamp::now`: the
/// returned 128 bits always carry version 7 and the standard variant,
/// while the timestamp and random fields differ from call to call.
#[verifier::external_body]
fn fresh_v7_bits() -> (r: u128)
    ensures
        version_of(r) == 7,
        variant_of(r) == 2,
{
    let ts = uuid::Timestamp::now(uuid::timestamp::context::NoContext);
    u128::from_be_bytes(*uuid::Uuid::new_v7(ts).as_bytes())
}

/// Generates a fresh identifier: the leading 48 bits hold the wall-clock
/// time in milliseconds, the version field holds 7, the variant field the
/// standard tag, and the remaining bits are random.
pub fn generate_uuid() -> (r: Uuid7)
    ensures
        version_of(r@) == 7,
        variant_of(r@) == 2,
{
    Uuid7::from_bits(fresh_v7_bits())
}

} // verus!
