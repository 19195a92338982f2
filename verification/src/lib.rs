//! Conversion between two renderings of one 128-bit time-ordered identifier:
//! the version-7 UUID (hyphenated hex) and the ULID (26-character Crockford
//! base32). The crate generates fresh identifiers, converts between the two
//! forms, parses either textual form, and renders the embedded millisecond
//! timestamp as a readable date.

mod ascii;
mod base32;
mod error;
mod generate;
mod hexfmt;
mod id;
mod parse;
mod time;

pub use base32::is_crock_byte;
pub use base32::is_ulid_bytes;
pub use base32::ulid_bytes_of;
pub use base32::ulid_chars_of;
pub use base32::lemma_ulid_round_trip;
pub use base32::ulid_value_of;
pub use error::IdError;
pub use error::spec_decimal;
pub use error::spec_digit;
pub use error::spec_message;
pub use generate::generate_uuid;
pub use hexfmt::is_hex_byte;
pub use hexfmt::is_uuid_bytes;
pub use hexfmt::lemma_uuid_round_trip;
pub use hexfmt::uuid_bytes_of;
pub use hexfmt::uuid_chars_of;
pub use hexfmt::uuid_value_of;
pub use id::Ulid;
pub use id::Uuid7;
pub use id::lemma_round_trip;
pub use id::lemma_version_rejection;
pub use id::spec_ulid_to_uuid;
pub use id::spec_uuid_to_ulid;
pub use id::timestamp_ms_of;
pub use id::ulid_to_uuid;
pub use id::uuid_to_ulid;
pub use id::variant_of;
pub use id::version_of;
pub use parse::ParsedInput;
pub use parse::lemma_grammars_disjoint;
pub use parse::parse_input;
pub use time::timestamp_display_of;
pub use time::ulid_to_timestamp;
