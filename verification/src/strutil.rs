use vstd::prelude::*;

verus! {

/// The character sequence whose code points are the given byte values.
pub open spec fn bytes_to_chars(b: Seq<u8>) -> Seq<char> {
    Seq::new(b.len(), |i: int| b[i] as char)
}

/// The byte values of a character sequence's code points; faithful only
/// for ASCII characters.
pub open spec fn chars_to_bytes(s: Seq<char>) -> Seq<u8> {
    Seq::new(s.len(), |i: int| s[i] as u8)
}

/// Whether a character is an ASCII uppercase letter.
pub open spec fn is_ascii_upper(c: char) -> bool {
    'A' <= c && c <= 'Z'
}

/// Whether a character is an ASCII uppercase letter, as executable code.
pub fn char_is_upper(c: char) -> (r: bool)
    ensures
        r == is_ascii_upper(c),
{
    'A' <= c && c <= 'Z'
}

/// ASCII lowercasing of one character: 'A'..'Z' gain 0x20, all else is kept.
pub open spec fn to_lower_char(c: char) -> char {
    if 'A' <= c && c <= 'Z' {
        ((c as u8) + 0x20) as char
    } else {
        c
    }
}

/// ASCII lowercasing of a character sequence.
pub open spec fn to_lower_chars(s: Seq<char>) -> Seq<char> {
    Seq::new(s.len(), |i: int| to_lower_char(s[i]))
}

/// ASCII lowercasing of one byte.
pub open spec fn to_lower_byte(b: u8) -> u8 {
    if 0x41 <= b && b <= 0x5a {
        (b + 0x20) as u8
    } else {
        b
    }
}

/// Lowercasing bytes agrees with lowercasing the characters they stand for,
/// on ASCII bytes.
pub proof fn lemma_lower_byte_char(b: u8)
    requires
        b < 128,
    ensures
        to_lower_byte(b) < 128,
        to_lower_char(b as char) == to_lower_byte(b) as char,
{
    if 0x41 <= b && b <= 0x5a {
        assert('A' <= (b as char) && (b as char) <= 'Z');
    } else {
        assert(!('A' <= (b as char) && (b as char) <= 'Z'));
    }
}

/// ASCII lowercasing of a byte, as executable code.
pub fn lower_byte(b: u8) -> (r: u8)
    ensures
        r == to_lower_byte(b),
{
    if 0x41 <= b && b <= 0x5a {
        b + 0x20
    } else {
        b
    }
}

/// ASCII lowercasing of a character, as executable code.
pub fn lower_char(c: char) -> (r: char)
    ensures
        r == to_lower_char(c),
{
    if 'A' <= c && c <= 'Z' {
        ((c as u8) + 0x20) as char
    } else {
        c
    }
}

/// Relies on String::from_utf8: a vector of ASCII bytes decodes to the
/// string whose characters are exactly those byte values.
#[verifier::external_body]
pub fn ascii_bytes_to_string(b: Vec<u8>) -> (r: String)
    requires
        forall|i: int| 0 <= i < b@.len() ==> b@[i] < 128,
    ensures
        r@ == bytes_to_chars(b@),
{
    match String::from_utf8(b) {
        Ok(s) => s,
        Err(_) => String::new(),
    }
}

} // verus!
