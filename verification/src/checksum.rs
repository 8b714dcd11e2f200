use vstd::prelude::*;

use vstd::assert_by_contradiction;
use vstd::string::StrSliceExecFns;

use crate::hexspec::{
    char_is_lower_hex, is_lower_hex_byte, is_lower_hex_char, lemma_lower_hex_char_byte,
};
use crate::keccak::{keccak256, keccak256_of};
use crate::strutil::{
    ascii_bytes_to_string, bytes_to_chars, chars_to_bytes, char_is_upper, is_ascii_upper,
    lemma_lower_byte_char, lower_char, to_lower_chars,
};

verus! {

/// The nibble of the hash that governs the case of position `i`: the high
/// nibble of byte `i / 2` when `i` is even, the low nibble otherwise.
pub open spec fn case_nibble(h: Seq<u8>, i: int) -> u8
    recommends
        0 <= i,
        i / 2 < h.len(),
{
    if i % 2 == 0 {
        (h[i / 2] >> 4) as u8
    } else {
        (h[i / 2] & 0xf) as u8
    }
}

/// One encoded byte: digits are copied, letters are uppercased exactly
/// when the governing nibble is at least 8.
pub open spec fn cased_byte(b: u8, nibble: u8) -> u8 {
    if 0x30 <= b && b <= 0x39 {
        b
    } else if nibble >= 8 {
        (b - 0x20) as u8
    } else {
        b
    }
}

/// The checksum encoding of a 40-byte lowercase hex address under a given
/// 32-byte hash.
pub open spec fn cased_bytes(addr: Seq<u8>, h: Seq<u8>) -> Seq<u8> {
    Seq::new(addr.len(), |i: int| cased_byte(addr[i], case_nibble(h, i)))
}

/// The EIP-55 encoding of a lowercase hex address, as bytes: the governing
/// hash is the Keccak-256 digest of the address's own ASCII bytes.
pub open spec fn checksum_of_bytes(addr: Seq<u8>) -> Seq<u8> {
    cased_bytes(addr, keccak256_of(addr))
}

/// The EIP-55 encoding of a lowercase hex address, as characters.
pub open spec fn checksum_of(a: Seq<char>) -> Seq<char> {
    bytes_to_chars(checksum_of_bytes(chars_to_bytes(a)))
}

/// An encoded byte is the input byte or its uppercase form, so it stays an
/// ASCII hex digit of some case.
pub proof fn lemma_cased_byte_ascii(b: u8, nibble: u8)
    requires
        is_lower_hex_byte(b),
    ensures
        cased_byte(b, nibble) < 128,
        0x30 <= cased_byte(b, nibble) && cased_byte(b, nibble) <= 0x66,
{
}

/// Checksum-encodes a 40-byte lowercase hex address.
pub fn checksum_address_bytes(addr: &[u8]) -> (r: Vec<u8>)
    requires
        addr@.len() == 40,
        forall|i: int| 0 <= i < addr@.len() ==> is_lower_hex_byte(#[trigger] addr@[i]),
    ensures
        r@ == checksum_of_bytes(addr@),
        r@.len() == 40,
        forall|i: int| 0 <= i < r@.len() ==> #[trigger] r@[i] < 128,
{
    let hash = keccak256(addr);
    let mut out: Vec<u8> = Vec::new();
    let ghost spec_out = checksum_of_bytes(addr@);
    let mut i: usize = 0;
    while i < 40
        invariant
            addr@.len() == 40,
            forall|j: int| 0 <= j < addr@.len() ==> is_lower_hex_byte(#[trigger] addr@[j]),
            hash@ == keccak256_of(addr@),
            hash@.len() == 32,
            spec_out == checksum_of_bytes(addr@),
            i <= 40,
            out@.len() == i,
            forall|j: int| 0 <= j < i ==> #[trigger] out@[j] == spec_out[j],
        decreases 40 - i,
    {
        let b = addr[i];
        if 0x30 <= b && b <= 0x39 {
            out.push(b);
        } else {
            let hb = hash[i / 2];
            let nibble: u8 = if i % 2 == 0 {
                hb >> 4
            } else {
                hb & 0xf
            };
            if nibble >= 8 {
                out.push(b - 0x20);
            } else {
                out.push(b);
            }
        }
        assert(out@[i as int] == spec_out[i as int]);
        i = i + 1;
    }
    proof {
        assert(out@ =~= spec_out);
        assert forall|j: int| 0 <= j < out@.len() implies #[trigger] out@[j] < 128 by {
            lemma_cased_byte_ascii(addr@[j], case_nibble(keccak256_of(addr@), j));
        }
    }
    out
}

/// Checksum-encodes a 40-character lowercase hex address into its EIP-55
/// mixed-case form. The encoding is a pure function of the address.
pub fn to_checksum_address(address: &str) -> (r: String)
    requires
        address@.len() == 40,
        forall|i: int| 0 <= i < address@.len() ==> is_lower_hex_char(#[trigger] address@[i]),
    ensures
        r@ == checksum_of(address@),
        r@.len() == 40,
{
    proof {
        assert forall|i: int| 0 <= i < address@.len() implies '\0' <= #[trigger] address@[i]
            <= '\u{7f}' by {
            lemma_lower_hex_char_byte(address@[i]);
        }
        assert(vstd::string::is_ascii(address));
        vstd::string::is_ascii_spec_bytes(address);
    }
    let bytes = address.as_bytes();
    proof {
        assert(bytes@ =~= chars_to_bytes(address@));
        assert forall|i: int| 0 <= i < bytes@.len() implies is_lower_hex_byte(
            #[trigger] bytes@[i],
        ) by {
            lemma_lower_hex_char_byte(address@[i]);
        }
    }
    let cased = checksum_address_bytes(bytes);
    let r = ascii_bytes_to_string(cased);
    proof {
        assert(r@ =~= checksum_of(address@));
    }
    r
}

/// What it means for a 0x-prefixed mixed-case address to carry a valid
/// checksum: if any character after the marker is uppercase, the part
/// after the marker must be exactly the checksum encoding of its own
/// lowercase form; an all-lowercase address makes no checksum claim and
/// passes.
pub open spec fn spec_verify_checksum(a: Seq<char>) -> bool
    recommends
        a.len() >= 2,
{
    let body = a.skip(2);
    if exists|j: int| 0 <= j < body.len() && is_ascii_upper(#[trigger] body[j]) {
        &&& body.len() == 40
        &&& (forall|j: int|
            0 <= j < body.len() ==> is_lower_hex_char(#[trigger] to_lower_chars(body)[j]))
        &&& body =~= checksum_of(to_lower_chars(body))
    } else {
        true
    }
}

/// Validates the checksum casing of a 0x-prefixed address: recomputes the
/// encoding of the lowercased body and compares, when any uppercase letter
/// makes a checksum claim at all.
pub fn verify_checksum(checksum_address: &str) -> (r: bool)
    requires
        checksum_address@.len() >= 2,
    ensures
        r == spec_verify_checksum(checksum_address@),
{
    let ghost a = checksum_address@;
    let ghost body = a.skip(2);
    let n = checksum_address.unicode_len();
    let mut has_upper = false;
    let mut i: usize = 2;
    while i < n
        invariant
            a == checksum_address@,
            n == a.len(),
            a.len() >= 2,
            2 <= i <= n,
            body == a.skip(2),
            has_upper == (exists|j: int| 0 <= j < i - 2 && is_ascii_upper(#[trigger] body[j])),
        decreases n - i,
    {
        if char_is_upper(checksum_address.get_char(i)) {
            proof {
                assert(is_ascii_upper(body[i - 2]));
            }
            has_upper = true;
        }
        i = i + 1;
    }
    if !has_upper {
        return true;
    }
    if n != 42 {
        return false;
    }
    let mut lower_bytes: Vec<u8> = Vec::new();
    let mut i: usize = 2;
    while i < 42
        invariant
            a == checksum_address@,
            n == a.len(),
            a.len() == 42,
            2 <= i <= 42,
            body == a.skip(2),
            exists|j: int| 0 <= j < body.len() && is_ascii_upper(#[trigger] body[j]),
            lower_bytes@.len() == i - 2,
            forall|j: int|
                0 <= j < i - 2 ==> is_lower_hex_char(#[trigger] to_lower_chars(body)[j]),
            forall|j: int|
                0 <= j < i - 2 ==> #[trigger] lower_bytes@[j] == (to_lower_chars(body)[j] as u8),
        decreases 42 - i,
    {
        let lc = lower_char(checksum_address.get_char(i));
        if !char_is_lower_hex(lc) {
            proof {
                assert(to_lower_chars(body)[i - 2] == lc);
            }
            return false;
        }
        lower_bytes.push(lc as u8);
        i = i + 1;
    }
    proof {
        assert(lower_bytes@ =~= chars_to_bytes(to_lower_chars(body)));
        assert forall|j: int| 0 <= j < 40 implies is_lower_hex_byte(#[trigger] lower_bytes@[j]) by {
            lemma_lower_hex_char_byte(to_lower_chars(body)[j]);
        }
    }
    let cased = checksum_address_bytes(lower_bytes.as_slice());
    let ghost expected = checksum_of(to_lower_chars(body));
    proof {
        assert(expected =~= bytes_to_chars(cased@));
    }
    let mut i: usize = 0;
    while i < 40
        invariant
            a == checksum_address@,
            n == a.len(),
            a.len() == 42,
            0 <= i <= 40,
            body == a.skip(2),
            exists|j: int| 0 <= j < body.len() && is_ascii_upper(#[trigger] body[j]),
            body.len() == 40,
            cased@.len() == 40,
            expected == checksum_of(to_lower_chars(body)),
            expected =~= bytes_to_chars(cased@),
            forall|j: int| 0 <= j < i ==> #[trigger] body[j] == expected[j],
        decreases 40 - i,
    {
        let e: char = cased[i] as char;
        proof {
            assert(expected[i as int] == e);
        }
        if checksum_address.get_char(i + 2) != e {
            proof {
                assert(body[i as int] != expected[i as int]);
                assert_by_contradiction!(body != expected, {
                    assert(body[i as int] == expected[i as int]);
                });
            }
            return false;
        }
        i = i + 1;
    }
    proof {
        assert(body =~= expected);
    }
    true
}

/// Checksum encoding only changes letter case: lowercasing the encoded
/// form gives the original lowercase address back.
pub proof fn lemma_checksum_case_insensitive(a: Seq<char>)
    requires
        forall|i: int| 0 <= i < a.len() ==> is_lower_hex_char(#[trigger] a[i]),
    ensures
        checksum_of(a).len() == a.len(),
        to_lower_chars(checksum_of(a)) =~= a,
{
    let cs = checksum_of(a);
    assert forall|i: int| 0 <= i < a.len() implies crate::strutil::to_lower_char(#[trigger] cs[i])
        == a[i] by {
        lemma_lower_hex_char_byte(a[i]);
        let b = chars_to_bytes(a)[i];
        let nib = case_nibble(keccak256_of(chars_to_bytes(a)), i);
        let cb = cased_byte(b, nib);
        lemma_lower_byte_char(cb);
    }
}

/// Encoding then validating round-trips: the 0x-prefixed checksum form of
/// any lowercase 40-character hex address carries a valid checksum.
pub proof fn lemma_encode_then_verify(a: Seq<char>)
    requires
        a.len() == 40,
        forall|i: int| 0 <= i < a.len() ==> is_lower_hex_char(#[trigger] a[i]),
    ensures
        spec_verify_checksum(seq!['0', 'x'] + checksum_of(a)),
{
    let full = seq!['0', 'x'] + checksum_of(a);
    let body = full.skip(2);
    assert(body =~= checksum_of(a));
    lemma_checksum_case_insensitive(a);
    assert(to_lower_chars(body) =~= a);
    assert(checksum_of(to_lower_chars(body)) == checksum_of(a));
}

/// The encoding is deterministic: equal addresses encode equally.
pub proof fn lemma_checksum_deterministic(a1: Seq<char>, a2: Seq<char>)
    requires
        a1 == a2,
    ensures
        checksum_of(a1) == checksum_of(a2),
{
}

} // verus!
