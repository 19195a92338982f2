//! The 26-character Crockford base32 rendering of a ULID.
//!
//! The alphabet is `0123456789ABCDEFGHJKMNPQRSTVWXYZ`; decoding accepts
//! both cases and rejects the letters I, L, O and U. Twenty-six base32
//! digits carry 130 bits, so decoding folds them into the 128-bit value
//! with the two excess top bits discarded, exactly as the canonical
//! encoding of any 128-bit value reproduces them as zero.

use vstd::prelude::*;
use vstd::string::StrSliceExecFns;
use vstd::string::StringSliceAdditionalSpecFns;
use vstd::utf8::encode_utf8;

use crate::ascii::ascii_to_string;
use crate::id::Ulid;

verus! {

/// True of the UTF-8 bytes that the base32 grammar accepts.
pub open spec fn is_crock_byte(b: u8) -> bool {
    ||| 0x30 <= b <= 0x39  // 0-9
    ||| 0x41 <= b <= 0x48  // A-H
    ||| 0x4A <= b <= 0x4B  // J-K
    ||| 0x4D <= b <= 0x4E  // M-N
    ||| 0x50 <= b <= 0x54  // P-T
    ||| 0x56 <= b <= 0x5A  // V-Z
    ||| 0x61 <= b <= 0x68  // a-h
    ||| 0x6A <= b <= 0x6B  // j-k
    ||| 0x6D <= b <= 0x6E  // m-n
    ||| 0x70 <= b <= 0x74  // p-t
    ||| 0x76 <= b <= 0x7A  // v-z
}

/// The numeric value of an accepted base32 byte.
pub open spec fn crock_val(b: u8) -> u8
    recommends
        is_crock_byte(b),
{
    if 0x30 <= b <= 0x39 {
        (b - 0x30) as u8
    } else if 0x41 <= b <= 0x48 {
        (b - 0x37) as u8
    } else if 0x4A <= b <= 0x4B {
        (b - 0x38) as u8
    } else if 0x4D <= b <= 0x4E {
        (b - 0x39) as u8
    } else if 0x50 <= b <= 0x54 {
        (b - 0x3A) as u8
    } else if 0x56 <= b <= 0x5A {
        (b - 0x3B) as u8
    } else if 0x61 <= b <= 0x68 {
        (b - 0x57) as u8
    } else if 0x6A <= b <= 0x6B {
        (b - 0x58) as u8
    } else if 0x6D <= b <= 0x6E {
        (b - 0x59) as u8
    } else if 0x70 <= b <= 0x74 {
        (b - 0x5A) as u8
    } else {
        (b - 0x5B) as u8
    }
}

/// The canonical (upper-case) base32 byte for a five-bit value.
pub open spec fn crock_byte_of(d: u8) -> u8
    recommends
        d < 32,
{
    if d < 10 {
        (0x30 + d) as u8
    } else if d < 18 {
        (0x37 + d) as u8
    } else if d < 20 {
        (0x38 + d) as u8
    } else if d < 22 {
        (0x39 + d) as u8
    } else if d < 27 {
        (0x3A + d) as u8
    } else {
        (0x3B + d) as u8
    }
}

/// True of the UTF-8 byte sequences that the ULID grammar accepts:
/// exactly 26 base32 bytes.
pub open spec fn is_ulid_bytes(s: Seq<u8>) -> bool {
    s.len() == 26 && forall|i: int| 0 <= i < s.len() ==> is_crock_byte(#[trigger] s[i])
}

/// The 128-bit value that an accepted byte sequence denotes: each digit
/// shifts the accumulator by five bits, the top bits falling off.
pub open spec fn ulid_value_of(s: Seq<u8>) -> u128
    decreases s.len(),
{
    if s.len() == 0 {
        0
    } else {
        (ulid_value_of(s.drop_last()) << 5) | (crock_val(s.last()) as u128)
    }
}

/// The five-bit group of `v` that the canonical rendering places at
/// position `i`.
pub open spec fn quint_of(v: u128, i: int) -> u8
    recommends
        0 <= i < 26,
{
    (((v >> ((125 - 5 * i) as u128)) & 31) as u8)
}

/// The canonical 26-byte rendering of a 128-bit value.
pub open spec fn ulid_bytes_of(v: u128) -> Seq<u8> {
    Seq::new(26, |i: int| crock_byte_of(quint_of(v, i)))
}

/// The canonical rendering, as characters.
pub open spec fn ulid_chars_of(v: u128) -> Seq<char> {
    ulid_bytes_of(v).map_values(|b: u8| b as char)
}

/// Encoding a five-bit value gives an accepted byte that decodes back to
/// the same value and stays in the ASCII range.
proof fn lemma_crock_inverse(d: u8)
    requires
        d < 32,
    ensures
        is_crock_byte(crock_byte_of(d)),
        crock_val(crock_byte_of(d)) == d,
        crock_byte_of(d) < 0x80,
{
}

/// Any five-bit group extracted by shift and mask stays below 32.
proof fn lemma_quint_bound(v: u128, sh: u128)
    ensures
        (v >> sh) & 31 < 32,
{
    assert((v >> sh) & 31 < 32) by (bit_vector);
}

/// One step of the decoding fold: appending the next five bits to the
/// already-decoded high bits reassembles the wider suffix of `v`.
proof fn lemma_fold_step5(v: u128, s: u128, t: u128)
    requires
        s == t + 5,
        s <= 125,
    ensures
        ((v >> s) << 5) | ((v >> t) & 31) == v >> t,
{
    assert(((v >> s) << 5) | ((v >> t) & 31) == v >> t) by (bit_vector)
        requires
            s == t + 5 && s <= 125,
    ;
}

/// Decoding the first `n` bytes of the canonical rendering yields the top
/// `5 * n` bits of the value.
proof fn lemma_ulid_prefix(v: u128, n: int)
    requires
        0 <= n <= 26,
    ensures
        n == 0 ==> ulid_value_of(ulid_bytes_of(v).take(n)) == 0,
        n >= 1 ==> ulid_value_of(ulid_bytes_of(v).take(n)) == v >> ((130 - 5 * n) as u128),
    decreases n,
{
    if n == 0 {
        assert(ulid_bytes_of(v).take(0) =~= Seq::<u8>::empty());
    } else {
        lemma_ulid_prefix(v, n - 1);
        let s = ulid_bytes_of(v).take(n);
        assert(s.drop_last() =~= ulid_bytes_of(v).take(n - 1));
        lemma_quint_bound(v, (125 - 5 * (n - 1)) as u128);
        lemma_crock_inverse(quint_of(v, n - 1));
        if n == 1 {
            assert((0u128 << 5) | ((v >> 125u128) & 31) == v >> 125u128) by (bit_vector);
        } else {
            lemma_fold_step5(v, (135 - 5 * n) as u128, (130 - 5 * n) as u128);
        }
    }
}

/// The canonical rendering always parses: its 26 bytes match the grammar
/// and decode to the original 128 bits.
pub proof fn lemma_ulid_round_trip(v: u128)
    ensures
        is_ulid_bytes(ulid_bytes_of(v)),
        ulid_value_of(ulid_bytes_of(v)) == v,
{
    assert forall|i: int| 0 <= i < 26 implies is_crock_byte(#[trigger] ulid_bytes_of(v)[i]) by {
        lemma_quint_bound(v, (125 - 5 * i) as u128);
        lemma_crock_inverse(quint_of(v, i));
    }
    lemma_ulid_prefix(v, 26);
    assert(ulid_bytes_of(v).take(26) =~= ulid_bytes_of(v));
    assert(v >> 0u128 == v) by (bit_vector);
}

/// The numeric value of each accepted base32 byte, computed; 255 marks a
/// byte outside the alphabet.
fn crock_digit(b: u8) -> (r: u8)
    ensures
        r != 255 <==> is_crock_byte(b),
        is_crock_byte(b) ==> r == crock_val(b) && r < 32,
{
    if 0x30 <= b && b <= 0x39 {
        b - 0x30
    } else if 0x41 <= b && b <= 0x48 {
        b - 0x37
    } else if 0x4A <= b && b <= 0x4B {
        b - 0x38
    } else if 0x4D <= b && b <= 0x4E {
        b - 0x39
    } else if 0x50 <= b && b <= 0x54 {
        b - 0x3A
    } else if 0x56 <= b && b <= 0x5A {
        b - 0x3B
    } else if 0x61 <= b && b <= 0x68 {
        b - 0x57
    } else if 0x6A <= b && b <= 0x6B {
        b - 0x58
    } else if 0x6D <= b && b <= 0x6E {
        b - 0x59
    } else if 0x70 <= b && b <= 0x74 {
        b - 0x5A
    } else if 0x76 <= b && b <= 0x7A {
        b - 0x5B
    } else {
        255
    }
}

/// The canonical base32 byte for a five-bit value, computed.
fn crock_letter(d: u8) -> (r: u8)
    requires
        d < 32,
    ensures
        r == crock_byte_of(d),
{
    if d < 10 {
        0x30 + d
    } else if d < 18 {
        0x37 + d
    } else if d < 20 {
        0x38 + d
    } else if d < 22 {
        0x39 + d
    } else if d < 27 {
        0x3A + d
    } else {
        0x3B + d
    }
}

impl Ulid {
    /// Parses the 26-character base32 form, case-insensitively. Returns the
    /// identifier exactly when the input matches the grammar.
    pub fn parse(s: &str) -> (r: Option<Ulid>)
        ensures
            r is Some <==> is_ulid_bytes(s.spec_bytes()),
            r matches Some(l) ==> l@ == ulid_value_of(s.spec_bytes()),
    {
        let bytes = s.as_bytes();
        if bytes.len() != 26 {
            return None;
        }
        let mut i: usize = 0;
        while i < 26
            invariant
                bytes@ == s.spec_bytes(),
                bytes@.len() == 26,
                i <= 26,
                forall|j: int| 0 <= j < i ==> is_crock_byte(#[trigger] bytes@[j]),
            decreases 26 - i,
        {
            if crock_digit(bytes[i]) == 255 {
                return None;
            }
            i += 1;
        }
        let mut acc: u128 = 0;
        let mut k: usize = 0;
        while k < 26
            invariant
                bytes@ == s.spec_bytes(),
                bytes@.len() == 26,
                k <= 26,
                forall|j: int| 0 <= j < 26 ==> is_crock_byte(#[trigger] bytes@[j]),
                acc == ulid_value_of(bytes@.subrange(0, k as int)),
            decreases 26 - k,
        {
            let d = crock_digit(bytes[k]);
            proof {
                assert(bytes@.subrange(0, k + 1 as int).drop_last() =~= bytes@.subrange(
                    0,
                    k as int,
                ));
            }
            acc = (acc << 5) | (d as u128);
            k += 1;
        }
        proof {
            assert(bytes@.subrange(0, 26) =~= bytes@);
        }
        Some(Ulid::from_bits(acc))
    }

    /// Renders the identifier in its canonical base32 form: 26 upper-case
    /// Crockford digits, most significant first.
    pub fn encode(&self) -> (r: String)
        ensures
            r@ == ulid_chars_of(self@),
            encode_utf8(r@) == ulid_bytes_of(self@),
            r@.len() == 26,
    {
        let v = self.to_bits();
        let mut out: Vec<u8> = Vec::new();
        let mut i: usize = 0;
        while i < 26
            invariant
                out@.len() == i,
                i <= 26,
                forall|j: int| 0 <= j < i ==> out@[j] == ulid_bytes_of(v)[j],
                forall|j: int| 0 <= j < i ==> out@[j] < 0x80,
            decreases 26 - i,
        {
            let sh: u128 = 125 - 5 * (i as u128);
            proof {
                assert((v >> sh) & 31 < 32) by (bit_vector);
            }
            let q: u8 = ((v >> sh) & 31) as u8;
            let b = crock_letter(q);
            proof {
                lemma_crock_inverse(q);
                assert(q == quint_of(v, i as int));
            }
            out.push(b);
            i += 1;
        }
        proof {
            assert(out@ =~= ulid_bytes_of(v));
        }
        let r = ascii_to_string(out);
        proof {
            assert(r@ =~= ulid_chars_of(v));
        }
        r
    }
}

} // verus!
