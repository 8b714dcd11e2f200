use hash_hunter::verify_address;
use secp256k1::{PublicKey, SecretKey};
use sha3::{Digest, Keccak256};

#[test]
fn test_verify_address() {
    let secret_key = SecretKey::from_secret_bytes([0x01; 32]).unwrap();
    let public_key = PublicKey::from_secret_key(&secret_key);

    let serialized_pub = public_key.serialize_uncompressed();
    let hash = Keccak256::digest(&serialized_pub[1..]);
    let address = format!("0x{}", hex::encode(&hash[12..]));
    let private_key = hex::encode(secret_key.secret_bytes());

    assert!(verify_address(&address, &private_key));
}

#[test]
fn test_verify_address_is_case_insensitive() {
    let secret_key = SecretKey::from_secret_bytes([0x02; 32]).unwrap();
    let public_key = PublicKey::from_secret_key(&secret_key);

    let serialized_pub = public_key.serialize_uncompressed();
    let hash = Keccak256::digest(&serialized_pub[1..]);
    let address = format!("0x{}", hex::encode(&hash[12..]).to_uppercase());
    let private_key = hex::encode(secret_key.secret_bytes());

    assert!(verify_address(&address, &private_key));
}

#[test]
fn test_verify_rejects_flipped_key_bit() {
    let secret_key = SecretKey::from_secret_bytes([0x01; 32]).unwrap();
    let public_key = PublicKey::from_secret_key(&secret_key);

    let serialized_pub = public_key.serialize_uncompressed();
    let hash = Keccak256::digest(&serialized_pub[1..]);
    let address = format!("0x{}", hex::encode(&hash[12..]));

    let mut flipped = [0x01; 32];
    flipped[31] ^= 0x80;
    let flipped_hex = hex::encode(flipped);
    assert!(!verify_address(&address, &flipped_hex));
}

#[test]
fn test_verify_rejects_bad_private_key() {
    let address = "0x5aaeb6053f3e94c9b9a09f33669435e7ef1beaed";
    assert!(!verify_address(address, "not hex at all"));
    assert!(!verify_address(address, "abcd"));
    assert!(!verify_address(address, &"0".repeat(64)));
}

#[test]
fn test_generated_candidate_verifies() {
    let candidate = hash_hunter::keygen::generate().expect("random source available");
    let address = format!("0x{}", candidate.address);
    let private_key = candidate.priv_key_hex();
    assert!(verify_address(&address, &private_key));
}
