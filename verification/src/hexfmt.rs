//! The hyphenated hexadecimal rendering of a version-7 UUID.
//!
//! The canonical form is 32 lower-case hex digits grouped 8-4-4-4-12 by
//! hyphens, 36 bytes in all; parsing accepts either case.

use vstd::prelude::*;
use vstd::string::StrSliceExecFns;
use vstd::string::StringSliceAdditionalSpecFns;
use vstd::utf8::encode_utf8;

use crate::ascii::ascii_to_string;
use crate::id::Uuid7;

verus! {

/// True of the UTF-8 bytes that the hex grammar accepts as digits.
pub open spec fn is_hex_byte(b: u8) -> bool {
    ||| 0x30 <= b <= 0x39  // 0-9
    ||| 0x41 <= b <= 0x46  // A-F
    ||| 0x61 <= b <= 0x66  // a-f
}

/// The numeric value of an accepted hex byte.
pub open spec fn hex_val(b: u8) -> u8
    recommends
        is_hex_byte(b),
{
    if 0x30 <= b <= 0x39 {
        (b - 0x30) as u8
    } else if 0x41 <= b <= 0x46 {
        (b - 0x37) as u8
    } else {
        (b - 0x57) as u8
    }
}

/// The canonical (lower-case) hex byte for a four-bit value.
pub open spec fn hex_byte_of(d: u8) -> u8
    recommends
        d < 16,
{
    if d < 10 {
        (0x30 + d) as u8
    } else {
        (0x57 + d) as u8
    }
}

/// True at the four positions that hold a hyphen in the 8-4-4-4-12
/// grouping.
pub open spec fn is_hyphen_pos(i: int) -> bool {
    i == 8 || i == 13 || i == 18 || i == 23
}

/// How many hyphens stand before position `i` of the rendering.
pub open spec fn hyphens_before(i: int) -> int {
    if i <= 8 {
        0
    } else if i <= 13 {
        1
    } else if i <= 18 {
        2
    } else if i <= 23 {
        3
    } else {
        4
    }
}

/// True of the UTF-8 byte sequences that the UUID grammar accepts:
/// 36 bytes, hyphens exactly at positions 8, 13, 18 and 23, hex digits
/// everywhere else.
pub open spec fn is_uuid_bytes(s: Seq<u8>) -> bool {
    &&& s.len() == 36
    &&& forall|i: int|
        0 <= i < s.len() ==> (if is_hyphen_pos(i) {
            #[trigger] s[i] == 0x2D
        } else {
            is_hex_byte(s[i])
        })
}

/// The 128-bit value that an accepted byte sequence denotes: each hex
/// digit shifts the accumulator by four bits, hyphens pass through.
pub open spec fn uuid_value_of(s: Seq<u8>) -> u128
    decreases s.len(),
{
    if s.len() == 0 {
        0
    } else if s.last() == 0x2D {
        uuid_value_of(s.drop_last())
    } else {
        (uuid_value_of(s.drop_last()) << 4) | (hex_val(s.last()) as u128)
    }
}

/// The four-bit group of `v` that the canonical rendering places at digit
/// index `j`.
pub open spec fn nibble_of(v: u128, j: int) -> u8
    recommends
        0 <= j < 32,
{
    (((v >> ((124 - 4 * j) as u128)) & 15) as u8)
}

/// The canonical 36-byte rendering of a 128-bit value.
pub open spec fn uuid_bytes_of(v: u128) -> Seq<u8> {
    Seq::new(
        36,
        |i: int|
            if is_hyphen_pos(i) {
                0x2D
            } else {
                hex_byte_of(nibble_of(v, i - hyphens_before(i)))
            },
    )
}

/// The canonical rendering, as characters.
pub open spec fn uuid_chars_of(v: u128) -> Seq<char> {
    uuid_bytes_of(v).map_values(|b: u8| b as char)
}

/// Encoding a four-bit value gives an accepted hex byte that decodes back
/// to the same value and stays in the ASCII range.
proof fn lemma_hex_inverse(d: u8)
    requires
        d < 16,
    ensures
        is_hex_byte(hex_byte_of(d)),
        hex_val(hex_byte_of(d)) == d,
        hex_byte_of(d) < 0x80,
        hex_byte_of(d) != 0x2D,
{
}

/// Any four-bit group extracted by shift and mask stays below 16.
proof fn lemma_nibble_bound(v: u128, sh: u128)
    ensures
        (v >> sh) & 15 < 16,
{
    assert((v >> sh) & 15 < 16) by (bit_vector);
}

/// One step of the decoding fold: appending the next four bits to the
/// already-decoded high bits reassembles the wider suffix of `v`.
proof fn lemma_fold_step4(v: u128, s: u128, t: u128)
    requires
        s == t + 4,
        s <= 124,
    ensures
        ((v >> s) << 4) | ((v >> t) & 15) == v >> t,
{
    assert(((v >> s) << 4) | ((v >> t) & 15) == v >> t) by (bit_vector)
        requires
            s == t + 4 && s <= 124,
    ;
}

/// Decoding the first `n` bytes of the canonical rendering yields the top
/// four bits of `v` for every hex digit among them, hyphens contributing
/// nothing.
proof fn lemma_uuid_prefix(v: u128, n: int)
    requires
        0 <= n <= 36,
    ensures
        n == 0 ==> uuid_value_of(uuid_bytes_of(v).take(n)) == 0,
        n >= 1 ==> uuid_value_of(uuid_bytes_of(v).take(n)) == v >> ((128 - 4 * (n
            - hyphens_before(n))) as u128),
    decreases n,
{
    if n == 0 {
        assert(uuid_bytes_of(v).take(0) =~= Seq::<u8>::empty());
    } else {
        lemma_uuid_prefix(v, n - 1);
        let s = uuid_bytes_of(v).take(n);
        assert(s.drop_last() =~= uuid_bytes_of(v).take(n - 1));
        if is_hyphen_pos(n - 1) {
        } else {
            let j = n - 1 - hyphens_before(n - 1);
            lemma_nibble_bound(v, (124 - 4 * j) as u128);
            lemma_hex_inverse(nibble_of(v, j));
            if n == 1 {
                assert((0u128 << 4) | ((v >> 124u128) & 15) == v >> 124u128) by (bit_vector);
            } else {
                lemma_fold_step4(
                    v,
                    (128 - 4 * (n - 1 - hyphens_before(n - 1))) as u128,
                    (124 - 4 * j) as u128,
                );
            }
        }
    }
}

/// The canonical rendering always parses: its 36 bytes match the grammar
/// and decode to the original 128 bits.
pub proof fn lemma_uuid_round_trip(v: u128)
    ensures
        is_uuid_bytes(uuid_bytes_of(v)),
        uuid_value_of(uuid_bytes_of(v)) == v,
{
    assert forall|i: int| 0 <= i < 36 implies (if is_hyphen_pos(i) {
        #[trigger] uuid_bytes_of(v)[i] == 0x2D
    } else {
        is_hex_byte(uuid_bytes_of(v)[i])
    }) by {
        if !is_hyphen_pos(i) {
            lemma_nibble_bound(v, (124 - 4 * (i - hyphens_before(i))) as u128);
            lemma_hex_inverse(nibble_of(v, i - hyphens_before(i)));
        }
    }
    lemma_uuid_prefix(v, 36);
    assert(uuid_bytes_of(v).take(36) =~= uuid_bytes_of(v));
    assert(v >> 0u128 == v) by (bit_vector);
}

/// The numeric value of each accepted hex byte, computed; 255 marks a byte
/// outside the alphabet.
fn hex_digit(b: u8) -> (r: u8)
    ensures
        r != 255 <==> is_hex_byte(b),
        is_hex_byte(b) ==> r == hex_val(b) && r < 16,
{
    if 0x30 <= b && b <= 0x39 {
        b - 0x30
    } else if 0x41 <= b && b <= 0x46 {
        b - 0x37
    } else if 0x61 <= b && b <= 0x66 {
        b - 0x57
    } else {
        255
    }
}

/// The canonical hex byte for a four-bit value, computed.
fn hex_letter(d: u8) -> (r: u8)
    requires
        d < 16,
    ensures
        r == hex_byte_of(d),
{
    if d < 10 {
        0x30 + d
    } else {
        0x57 + d
    }
}

/// Whether the given position holds a hyphen in the 8-4-4-4-12 grouping,
/// computed.
fn hyphen_here(i: usize) -> (r: bool)
    ensures
        r == is_hyphen_pos(i as int),
{
    i == 8 || i == 13 || i == 18 || i == 23
}

impl Uuid7 {
    /// Parses the hyphenated hex form, case-insensitively. Returns the
    /// identifier exactly when the input matches the grammar.
    pub fn parse(s: &str) -> (r: Option<Uuid7>)
        ensures
            r is Some <==> is_uuid_bytes(s.spec_bytes()),
            r matches Some(u) ==> u@ == uuid_value_of(s.spec_bytes()),
    {
        let bytes = s.as_bytes();
        if bytes.len() != 36 {
            return None;
        }
        let mut i: usize = 0;
        while i < 36
            invariant
                bytes@ == s.spec_bytes(),
                bytes@.len() == 36,
                i <= 36,
                forall|j: int|
                    0 <= j < i ==> (if is_hyphen_pos(j) {
                        #[trigger] bytes@[j] == 0x2D
                    } else {
                        is_hex_byte(bytes@[j])
                    }),
            decreases 36 - i,
        {
            if hyphen_here(i) {
                if bytes[i] != 0x2D {
                    return None;
                }
            } else {
                if hex_digit(bytes[i]) == 255 {
                    return None;
                }
            }
            i += 1;
        }
        let mut acc: u128 = 0;
        let mut k: usize = 0;
        while k < 36
            invariant
                bytes@ == s.spec_bytes(),
                bytes@.len() == 36,
                k <= 36,
                is_uuid_bytes(bytes@),
                acc == uuid_value_of(bytes@.subrange(0, k as int)),
            decreases 36 - k,
        {
            proof {
                assert(bytes@.subrange(0, k + 1 as int).drop_last() =~= bytes@.subrange(
                    0,
                    k as int,
                ));
            }
            if !hyphen_here(k) {
                let d = hex_digit(bytes[k]);
                acc = (acc << 4) | (d as u128);
            }
            k += 1;
        }
        proof {
            assert(bytes@.subrange(0, 36) =~= bytes@);
        }
        Some(Uuid7::from_bits(acc))
    }

    /// Renders the identifier in its canonical hyphenated hex form:
    /// 32 lower-case digits grouped 8-4-4-4-12, most significant first.
    pub fn encode(&self) -> (r: String)
        ensures
            r@ == uuid_chars_of(self@),
            encode_utf8(r@) == uuid_bytes_of(self@),
            r@.len() == 36,
    {
        let v = self.to_bits();
        let mut out: Vec<u8> = Vec::new();
        let mut i: usize = 0;
        while i < 36
            invariant
                out@.len() == i,
                i <= 36,
                forall|j: int| 0 <= j < i ==> out@[j] == uuid_bytes_of(v)[j],
                forall|j: int| 0 <= j < i ==> out@[j] < 0x80,
            decreases 36 - i,
        {
            if hyphen_here(i) {
                out.push(0x2D);
            } else {
                let j = i - hyphens_before_here(i);
                let sh: u128 = 124 - 4 * (j as u128);
                proof {
                    assert((v >> sh) & 15 < 16) by (bit_vector);
                }
                let d: u8 = ((v >> sh) & 15) as u8;
                let b = hex_letter(d);
                proof {
                    lemma_hex_inverse(d);
                    assert(d == nibble_of(v, j as int));
                }
                out.push(b);
            }
            i += 1;
        }
        proof {
            assert(out@ =~= uuid_bytes_of(v));
        }
        let r = ascii_to_string(out);
        proof {
            assert(r@ =~= uuid_chars_of(v));
        }
        r
    }
}

/// How many hyphens stand before position `i`, computed.
fn hyphens_before_here(i: usize) -> (r: usize)
    requires
        i <= 36,
    ensures
        r == hyphens_before(i as int),
        r <= 4,
        r <= i,
{
    if i <= 8 {
        0
    } else if i <= 13 {
        1
    } else if i <= 18 {
        2
    } else if i <= 23 {
        3
    } else {
        4
    }
}

} // verus!
