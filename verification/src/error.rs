//! The closed set of errors that the identifier operations report.

use vstd::prelude::*;
use vstd::string::StringExecFns;

use crate::ascii::ascii_to_string;

verus! {

/// Everything that can go wrong when parsing or converting an identifier.
#[derive(Clone, Copy, Debug, PartialEq, Eq, Structural)]
pub enum IdError {
    /// The input string matches neither the hyphenated-hex grammar nor the
    /// base32 grammar.
    InvalidFormat,
    /// The value parsed as a UUID, but its 4-bit version field held `found`
    /// instead of 7.
    VersionMismatch { found: u8 },
    /// The embedded millisecond count lies outside the range the date-time
    /// rendering supports.
    UnrepresentableTimestamp,
}

/// The display text of each error, as a sequence of characters.
pub open spec fn spec_message(e: IdError) -> Seq<char> {
    match e {
        IdError::InvalidFormat => "Invalid input format"@,
        IdError::VersionMismatch { found } => "Expected UUIDv7, got UUIDv"@ + spec_decimal(
            found as int,
        ),
        IdError::UnrepresentableTimestamp => "Timestamp out of range"@,
    }
}

/// The decimal digit character for a value below ten.
pub open spec fn spec_digit(d: int) -> char
    recommends
        0 <= d < 10,
{
    ((0x30 + d) as u8) as char
}

/// The decimal rendering of a byte-sized number, without leading zeros.
pub open spec fn spec_decimal(n: int) -> Seq<char>
    recommends
        0 <= n < 256,
{
    if n < 10 {
        seq![spec_digit(n)]
    } else if n < 100 {
        seq![spec_digit(n / 10), spec_digit(n % 10)]
    } else {
        seq![spec_digit(n / 100), spec_digit((n / 10) % 10), spec_digit(n % 10)]
    }
}

/// The decimal rendering of a byte-sized number, as ASCII bytes.
fn decimal_bytes(n: u8) -> (r: Vec<u8>)
    ensures
        r@.map_values(|b: u8| b as char) == spec_decimal(n as int),
        forall|i: int| 0 <= i < r@.len() ==> r@[i] < 0x80,
{
    let mut out: Vec<u8> = Vec::new();
    if n >= 100 {
        out.push(0x30 + n / 100);
    }
    if n >= 10 {
        out.push(0x30 + (n / 10) % 10);
    }
    out.push(0x30 + n % 10);
    proof {
        assert(out@.map_values(|b: u8| b as char) =~= spec_decimal(n as int));
    }
    out
}

impl IdError {
    /// The display text of the error.
    pub fn message(&self) -> (r: String)
        ensures
            r@ == spec_message(*self),
    {
        match self {
            IdError::InvalidFormat => String::from_str("Invalid input format"),
            IdError::VersionMismatch { found } => {
                let digits = ascii_to_string(decimal_bytes(*found));
                let prefix = String::from_str("Expected UUIDv7, got UUIDv");
                let r = prefix.concat(digits.as_str());
                proof {
                    assert(r@ =~= spec_message(*self));
                }
                r
            },
            IdError::UnrepresentableTimestamp => String::from_str("Timestamp out of range"),
        }
    }
}

} // verus!
