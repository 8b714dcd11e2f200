use vstd::prelude::*;

use vstd::assert_by_contradiction;
use vstd::string::StrSliceExecFns;

use crate::curve::scalar_valid;
use crate::hexspec::{
    hex_decode, hex_decoded_chars, hex_lower_of, is_hex_char, is_lower_hex_char,
    lemma_hex_chars_round_trip,
};
use crate::keygen::{address_chars_of, derive_candidate};
use crate::strutil::{bytes_to_chars, lower_char, to_lower_char, to_lower_chars};

verus! {

/// What address verification means: the private key decodes as hex to a
/// valid 32-byte scalar, and the claimed address, compared without regard
/// to ASCII case, is the 0x-prefixed raw address that the scalar derives.
pub open spec fn spec_verify(address: Seq<char>, priv_hex: Seq<char>) -> bool {
    if priv_hex.len() % 2 == 0 && (forall|i: int|
        0 <= i < priv_hex.len() ==> is_hex_char(#[trigger] priv_hex[i])) {
        let sk = hex_decoded_chars(priv_hex);
        if sk.len() == 32 && scalar_valid(sk) {
            to_lower_chars(address) == seq!['0', 'x'] + address_chars_of(sk)
        } else {
            false
        }
    } else {
        false
    }
}

/// Independently re-derives the address of a claimed result from its
/// private key and compares, ignoring ASCII case. Never panics; any
/// undecodable or invalid key yields `false`.
pub fn verify_address(address: &str, private_key: &str) -> (r: bool)
    ensures
        r == spec_verify(address@, private_key@),
{
    let sk = match hex_decode(private_key) {
        Some(b) => b,
        None => {
            return false;
        },
    };
    let ghost skv = sk@;
    let cand = match derive_candidate(sk) {
        Some(c) => c,
        None => {
            return false;
        },
    };
    let ghost rhs = seq!['0', 'x'] + address_chars_of(skv);
    proof {
        assert(rhs.len() == 42);
    }
    let n = address.unicode_len();
    if n != 42 {
        proof {
            assert(to_lower_chars(address@).len() != rhs.len());
        }
        return false;
    }
    let mut i: usize = 0;
    while i < 42
        invariant
            private_key@.len() % 2 == 0,
            forall|j: int| 0 <= j < private_key@.len() ==> is_hex_char(#[trigger] private_key@[j]),
            skv == hex_decoded_chars(private_key@),
            skv.len() == 32,
            scalar_valid(skv),
            cand.wf(),
            cand.secret@ == skv,
            rhs == seq!['0', 'x'] + address_chars_of(skv),
            rhs.len() == 42,
            address@.len() == 42,
            i <= 42,
            forall|j: int| 0 <= j < i ==> to_lower_chars(address@)[j] == rhs[j],
        decreases 42 - i,
    {
        let c = lower_char(address.get_char(i));
        let e: char = if i == 0 {
            '0'
        } else if i == 1 {
            'x'
        } else {
            cand.address.as_str().get_char(i - 2)
        };
        proof {
            assert(rhs[i as int] == e);
        }
        if c != e {
            proof {
                let tl = to_lower_chars(address@);
                assert(tl[i as int] == to_lower_char(address@[i as int]));
                assert(tl[i as int] != rhs[i as int]);
                assert_by_contradiction!(tl != rhs, {
                    assert(tl[i as int] == rhs[i as int]);
                });
                assert(hex_decoded_chars(private_key@) =~= skv);
            }
            return false;
        }
        i = i + 1;
    }
    proof {
        assert(to_lower_chars(address@) =~= rhs);
    }
    true
}

/// Any key pair whose address was derived from its own scalar passes
/// verification: the 0x-prefixed address checks out against the scalar's
/// hex form.
pub proof fn lemma_generated_pair_verifies(sk: Seq<u8>)
    requires
        sk.len() == 32,
        scalar_valid(sk),
    ensures
        spec_verify(seq!['0', 'x'] + address_chars_of(sk), bytes_to_chars(hex_lower_of(sk))),
{
    lemma_hex_chars_round_trip(sk);
    let priv_hex = bytes_to_chars(hex_lower_of(sk));
    assert(hex_decoded_chars(priv_hex) =~= sk);
    let addr = seq!['0', 'x'] + address_chars_of(sk);
    let hash_tail = keccak_tail(sk);
    lemma_hex_chars_round_trip(hash_tail);
    assert forall|j: int| 0 <= j < addr.len() implies to_lower_char(#[trigger] addr[j]) == addr[j] by {
        if j >= 2 {
            assert(addr[j] == bytes_to_chars(hex_lower_of(hash_tail))[j - 2]);
            assert(is_lower_hex_char(addr[j]));
        }
    }
    assert(to_lower_chars(addr) =~= addr);
}

/// The hash bytes whose hex form is the raw address of a scalar.
pub open spec fn keccak_tail(sk: Seq<u8>) -> Seq<u8> {
    crate::keccak::keccak256_of(crate::curve::uncompressed_pubkey_of(sk).skip(1)).subrange(
        12,
        crate::keccak::keccak256_of(crate::curve::uncompressed_pubkey_of(sk).skip(1)).len() as int,
    )
}

} // verus!
