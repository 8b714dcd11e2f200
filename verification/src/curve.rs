use vstd::prelude::*;

verus! {

/// Whether 32 bytes form a valid secp256k1 secret scalar (nonzero and
/// below the curve order). Decided by outside code; named here.
pub uninterp spec fn scalar_valid(sk: Seq<u8>) -> bool;

/// The 65-byte uncompressed SEC encoding (marker 0x04, then the 32-byte X
/// and Y coordinates) of the public point of a valid secret scalar.
pub uninterp spec fn uncompressed_pubkey_of(sk: Seq<u8>) -> Seq<u8>;

/// Relies on rand::rngs::OsRng (rand::RngCore::try_fill_bytes): fills the
/// buffer from the operating system's secure random source, or reports
/// failure. Nothing is assumed about the drawn values.
#[verifier::external_body]
pub fn os_random_32() -> (r: Option<Vec<u8>>)
    ensures
        (match r {
            Some(b) => b@.len() == 32,
            None => true,
        }),
{
    let mut buf = [0u8; 32];
    match rand::RngCore::try_fill_bytes(&mut rand::rngs::OsRng, &mut buf) {
        Ok(()) => Some(buf.to_vec()),
        Err(_) => None,
    }
}

/// Relies on secp256k1: SecretKey::from_secret_bytes accepts exactly the
/// 32-byte arrays in the curve's valid scalar range, and
/// PublicKey::from_secret_key followed by serialize_uncompressed yields the
/// uncompressed SEC encoding of the scalar's public point, a pure function
/// of the scalar alone.
#[verifier::external_body]
pub fn derive_public_key(sk: &[u8]) -> (r: Option<Vec<u8>>)
    ensures
        (match r {
            Some(pk) => sk@.len() == 32 && scalar_valid(sk@) && pk@ == uncompressed_pubkey_of(sk@)
                && pk@.len() == 65 && pk@[0] == 0x04,
            None => !(sk@.len() == 32 && scalar_valid(sk@)),
        }),
{
    match <[u8; 32]>::try_from(sk) {
        Ok(buf) => match secp256k1::SecretKey::from_secret_bytes(buf) {
            Ok(key) => Some(
                secp256k1::PublicKey::from_secret_key(&key).serialize_uncompressed().to_vec(),
            ),
            Err(_) => None,
        },
        Err(_) => None,
    }
}

} // verus!
