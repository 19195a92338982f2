//! Rendering the creation instant embedded in an identifier.
//!
//! The leading 48 bits of an identifier count milliseconds since the Unix
//! epoch. The calendar arithmetic and the fixed `%b %d, %Y %H:%M:%S`
//! pattern (three-letter month, zero-padded day, four-digit year,
//! 24-hour clock, all in UTC) are delegated to the date-time library.

use vstd::prelude::*;

use crate::id::Ulid;
use crate::id::timestamp_ms_of;

verus! {

/// The text that the date-time library renders for a millisecond count:
/// a fixed function of the count alone.
pub uninterp spec fn timestamp_display_of(ms: u64) -> Seq<char>;

/// Relies on `chrono::DateTime::<Utc>::from_timestamp_millis` and chrono's
/// `%b %d, %Y %H:%M:%S` formatting: the rendered text depends on the
/// millisecond count alone, and every count below 2^48 lies well inside
/// chrono's supported range (about 262,000 years), so a value is always
/// returned.
#[verifier::external_body]
fn format_ms(ms: u64) -> (r: Option<String>)
    requires
        ms < 0x1_0000_0000_0000,
    ensures
        r is Some,
        r matches Some(s) ==> s@ == timestamp_display_of(ms),
{
    chrono::DateTime::<chrono::Utc>::from_timestamp_millis(ms as i64).map(
        |t| t.format("%b %d, %Y %H:%M:%S").to_string(),
    )
}

/// Renders the creation instant embedded in the identifier's leading
/// 48 bits as a readable UTC date-time.
pub fn ulid_to_timestamp(ulid: Ulid) -> (r: String)
    ensures
        r@ == timestamp_display_of(timestamp_ms_of(ulid@) as u64),
{
    let ms = ulid.timestamp_ms();
    match format_ms(ms) {
        Some(s) => s,
        None => String::new(),
    }
}

} // verus!
