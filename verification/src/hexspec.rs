use vstd::prelude::*;

use crate::strutil::bytes_to_chars;

verus! {

/// The ASCII byte of a nibble's lowercase hex digit.
pub open spec fn hex_digit_lower(n: u8) -> u8
    recommends
        n < 16,
{
    if n < 10 {
        (0x30 + n) as u8
    } else {
        (0x61 + (n - 10)) as u8
    }
}

/// Lowercase hex encoding of a byte sequence, one byte per ASCII digit.
pub open spec fn hex_lower_of(b: Seq<u8>) -> Seq<u8> {
    Seq::new(2 * b.len(), |i: int| hex_digit_lower(if i % 2 == 0 { (b[i / 2] >> 4) as u8 } else { (b[i / 2] & 0xf) as u8 }))
}

/// Whether a byte is an ASCII hex digit (either case).
pub open spec fn is_hex_byte(b: u8) -> bool {
    (0x30 <= b && b <= 0x39) || (0x61 <= b && b <= 0x66) || (0x41 <= b && b <= 0x46)
}

/// Whether a byte is a lowercase ASCII hex digit.
pub open spec fn is_lower_hex_byte(b: u8) -> bool {
    (0x30 <= b && b <= 0x39) || (0x61 <= b && b <= 0x66)
}

/// The numeric value of an ASCII hex digit byte.
pub open spec fn hex_val(b: u8) -> u8
    recommends
        is_hex_byte(b),
{
    if 0x30 <= b && b <= 0x39 {
        (b - 0x30) as u8
    } else if 0x61 <= b && b <= 0x66 {
        (b - 0x61 + 10) as u8
    } else {
        (b - 0x41 + 10) as u8
    }
}

/// The bytes that a hex string of even length decodes to.
pub open spec fn hex_decoded(s: Seq<u8>) -> Seq<u8>
    recommends
        s.len() % 2 == 0,
{
    Seq::new(s.len() / 2, |i: int| (hex_val(s[2 * i]) * 16 + hex_val(s[2 * i + 1])) as u8)
}

/// A lowercase hex digit byte decodes back to its nibble.
pub proof fn lemma_hex_digit_lower_val(n: u8)
    requires
        n < 16,
    ensures
        is_lower_hex_byte(hex_digit_lower(n)),
        hex_val(hex_digit_lower(n)) == n,
{
}

/// Whether a character is a lowercase ASCII hex digit.
pub open spec fn is_lower_hex_char(c: char) -> bool {
    ('0' <= c && c <= '9') || ('a' <= c && c <= 'f')
}

/// Whether a character is a lowercase ASCII hex digit, as executable code.
pub fn char_is_lower_hex(c: char) -> (r: bool)
    ensures
        r == is_lower_hex_char(c),
{
    ('0' <= c && c <= '9') || ('a' <= c && c <= 'f')
}

/// A lowercase hex character is ASCII and its code point is a lowercase
/// hex byte.
pub proof fn lemma_lower_hex_char_byte(c: char)
    requires
        is_lower_hex_char(c),
    ensures
        (c as u32) < 128,
        is_lower_hex_byte(c as u8),
        c as u8 as char == c,
{
}

/// Whether a character is an ASCII hex digit of either case.
pub open spec fn is_hex_char(c: char) -> bool {
    ('0' <= c && c <= '9') || ('a' <= c && c <= 'f') || ('A' <= c && c <= 'F')
}

/// The numeric value of a hex digit character.
pub open spec fn hex_char_val(c: char) -> u8
    recommends
        is_hex_char(c),
{
    if '0' <= c && c <= '9' {
        ((c as u8) - 0x30) as u8
    } else if 'a' <= c && c <= 'f' {
        ((c as u8) - 0x61 + 10) as u8
    } else {
        ((c as u8) - 0x41 + 10) as u8
    }
}

/// The bytes that a hex character sequence of even length decodes to.
pub open spec fn hex_decoded_chars(s: Seq<char>) -> Seq<u8>
    recommends
        s.len() % 2 == 0,
{
    Seq::new(s.len() / 2, |i: int| (hex_char_val(s[2 * i]) * 16 + hex_char_val(s[2 * i + 1])) as u8)
}

/// Relies on hex::encode: lowercase hex encoding, two digits for each
/// input byte, most significant nibble first.
#[verifier::external_body]
pub fn hex_encode(data: &[u8]) -> (r: String)
    ensures
        r@ == bytes_to_chars(hex_lower_of(data@)),
{
    hex::encode(data)
}

/// Relies on hex::decode: succeeds exactly on even-length strings made of
/// hex digits of either case, pairing the digits into bytes.
#[verifier::external_body]
pub fn hex_decode(s: &str) -> (r: Option<Vec<u8>>)
    ensures
        (match r {
            Some(b) => s@.len() % 2 == 0 && (forall|i: int|
                0 <= i < s@.len() ==> is_hex_char(#[trigger] s@[i])) && b@ == hex_decoded_chars(
                s@,
            ),
            None => !(s@.len() % 2 == 0 && forall|i: int|
                0 <= i < s@.len() ==> is_hex_char(#[trigger] s@[i])),
        }),
{
    match hex::decode(s) {
        Ok(v) => Some(v),
        Err(_) => None,
    }
}

/// A lowercase hex byte names the same digit as the character it stands
/// for.
pub proof fn lemma_lower_hex_byte_as_char(b: u8)
    requires
        is_lower_hex_byte(b),
    ensures
        is_lower_hex_char(b as char),
        is_hex_char(b as char),
        hex_char_val(b as char) == hex_val(b),
        (b as char) as u8 == b,
{
}

/// The character form of a hex encoding: always twice as long as the
/// input, made of lowercase hex digits, and decoding it gives the input
/// back.
#[verifier::rlimit(30)]
pub proof fn lemma_hex_chars_round_trip(b: Seq<u8>)
    ensures
        bytes_to_chars(hex_lower_of(b)).len() == 2 * b.len(),
        forall|i: int| 0 <= i < 2 * b.len() ==> is_lower_hex_char(
            #[trigger] bytes_to_chars(hex_lower_of(b))[i],
        ),
        hex_decoded_chars(bytes_to_chars(hex_lower_of(b))) =~= b,
{
    let h = hex_lower_of(b);
    let c = bytes_to_chars(h);
    assert forall|i: int| 0 <= i < 2 * b.len() implies is_lower_hex_char(#[trigger] c[i]) by {
        let x = b[i / 2];
        assert((x >> 4) < 16 && (x & 0xf) < 16) by (bit_vector);
        lemma_hex_digit_lower_val(if i % 2 == 0 {
            (x >> 4) as u8
        } else {
            (x & 0xf) as u8
        });
        lemma_lower_hex_byte_as_char(h[i]);
    }
    lemma_hex_round_trip(b);
    assert forall|i: int| 0 <= i < b.len() implies hex_decoded_chars(c)[i] == b[i] by {
        let x = b[i];
        assert((x >> 4) < 16 && (x & 0xf) < 16) by (bit_vector);
        lemma_hex_digit_lower_val((x >> 4) as u8);
        lemma_hex_digit_lower_val((x & 0xf) as u8);
        lemma_lower_hex_byte_as_char(h[2 * i]);
        lemma_lower_hex_byte_as_char(h[2 * i + 1]);
        assert(hex_decoded(h)[i] == b[i]);
    }
}

/// Hex-encoding then decoding a byte sequence gives it back.
pub proof fn lemma_hex_round_trip(b: Seq<u8>)
    ensures
        hex_lower_of(b).len() == 2 * b.len(),
        hex_lower_of(b).len() % 2 == 0,
        hex_decoded(hex_lower_of(b)) =~= b,
{
    let h = hex_lower_of(b);
    assert forall|i: int| 0 <= i < b.len() implies hex_decoded(h)[i] == b[i] by {
        let x = b[i];
        let hi = (x >> 4) as u8;
        let lo = (x & 0xf) as u8;
        assert((x >> 4) < 16 && (x & 0xf) < 16 && (x >> 4) * 16 + (x & 0xf) == x) by (bit_vector);
        assert(h[2 * i] == hex_digit_lower(hi));
        assert(h[2 * i + 1] == hex_digit_lower(lo));
        lemma_hex_digit_lower_val(hi);
        lemma_hex_digit_lower_val(lo);
    }
}

} // verus!
