use vstd::prelude::*;

use vstd::slice::slice_subrange;

use crate::curve::{derive_public_key, os_random_32, scalar_valid, uncompressed_pubkey_of};
use crate::hexspec::{hex_encode, hex_lower_of, is_lower_hex_char, lemma_hex_chars_round_trip};
use crate::keccak::{keccak256, keccak256_of};
use crate::strutil::bytes_to_chars;

verus! {

/// How often a fresh scalar is drawn before generation gives up. A draw is
/// rejected only when it falls outside the curve's valid range, so more
/// than one round is already astronomically unlikely.
pub const SCALAR_DRAW_ROUNDS: u64 = 128;

/// The raw address derived from a secret scalar: the lowercase hex form of
/// the low 20 bytes of the Keccak-256 digest of the public key's 64
/// coordinate bytes (the leading marker byte is excluded).
pub open spec fn address_chars_of(sk: Seq<u8>) -> Seq<char> {
    bytes_to_chars(
        hex_lower_of(
            keccak256_of(uncompressed_pubkey_of(sk).skip(1)).subrange(
                12,
                keccak256_of(uncompressed_pubkey_of(sk).skip(1)).len() as int,
            ),
        ),
    )
}

/// One candidate key pair: the secret scalar, its public key in
/// uncompressed form, and the raw (lowercase) address derived from it.
pub struct Candidate {
    pub secret: Vec<u8>,
    pub public_key: Vec<u8>,
    pub address: String,
}

impl Candidate {
    /// The candidate is internally consistent: a valid 32-byte scalar, the
    /// public key derived from it, and the 40-character address derived
    /// from the public key.
    pub open spec fn wf(self) -> bool {
        &&& self.secret@.len() == 32
        &&& scalar_valid(self.secret@)
        &&& self.public_key@ == uncompressed_pubkey_of(self.secret@)
        &&& self.address@ == address_chars_of(self.secret@)
        &&& self.address@.len() == 40
        &&& (forall|i: int|
            0 <= i < self.address@.len() ==> is_lower_hex_char(#[trigger] self.address@[i]))
    }

    /// The secret scalar as 64 lowercase hex characters.
    pub fn priv_key_hex(&self) -> (r: String)
        ensures
            r@ == bytes_to_chars(hex_lower_of(self.secret@)),
    {
        hex_encode(self.secret.as_slice())
    }
}

/// Derives the candidate that a given secret scalar determines: its public
/// key and raw address. Fails exactly when the bytes are not a valid
/// 32-byte scalar. A derived candidate always passes address verification.
pub fn derive_candidate(secret: Vec<u8>) -> (r: Option<Candidate>)
    ensures
        match r {
            Some(c) => secret@.len() == 32 && scalar_valid(secret@) && c.secret@ == secret@
                && c.wf() && crate::verify::spec_verify(
                seq!['0', 'x'] + c.address@,
                bytes_to_chars(hex_lower_of(c.secret@)),
            ),
            None => !(secret@.len() == 32 && scalar_valid(secret@)),
        },
{
    match derive_public_key(secret.as_slice()) {
        Some(pk) => {
            let coords = slice_subrange(pk.as_slice(), 1, 65);
            let hash = keccak256(coords);
            let addr_bytes = slice_subrange(hash.as_slice(), 12, 32);
            let address = hex_encode(addr_bytes);
            proof {
                assert(coords@ =~= uncompressed_pubkey_of(secret@).skip(1));
                assert(addr_bytes@ =~= keccak256_of(uncompressed_pubkey_of(secret@).skip(1))
                    .subrange(
                    12,
                    keccak256_of(uncompressed_pubkey_of(secret@).skip(1)).len() as int,
                ));
                lemma_hex_chars_round_trip(addr_bytes@);
                assert(address@ == address_chars_of(secret@));
                crate::verify::lemma_generated_pair_verifies(secret@);
            }
            Some(Candidate { secret, public_key: pk, address })
        },
        None => None,
    }
}

/// Draws a fresh secret scalar from the secure random source and derives
/// its candidate. `None` only when the random source fails or every drawn
/// scalar fell outside the curve's range.
pub fn generate() -> (r: Option<Candidate>)
    ensures
        match r {
            Some(c) => c.wf() && crate::verify::spec_verify(
                seq!['0', 'x'] + c.address@,
                bytes_to_chars(hex_lower_of(c.secret@)),
            ),
            None => true,
        },
{
    let mut round: u64 = 0;
    while round < SCALAR_DRAW_ROUNDS
        invariant
            round <= SCALAR_DRAW_ROUNDS,
        decreases SCALAR_DRAW_ROUNDS - round,
    {
        match os_random_32() {
            Some(bytes) => {
                match derive_candidate(bytes) {
                    Some(c) => {
                        return Some(c);
                    },
                    None => {
                        // out-of-range draw; take another
                    },
                }
            },
            None => {
                return None;
            },
        }
        round = round + 1;
    }
    None
}

} // verus!
