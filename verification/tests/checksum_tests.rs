use hash_hunter::{to_checksum_address, verify_checksum};

#[test]
fn test_checksum_address() {
    let test_address = "5aaeb6053f3e94c9b9a09f33669435e7ef1beaed";
    let expected = "5aAeb6053F3E94C9b9A09f33669435E7Ef1BeAed";
    assert_eq!(to_checksum_address(test_address), expected);
}

#[test]
fn test_checksum_is_pure() {
    let address = "fb6916095ca1df60bb79ce92ce3ea74c37c5d359";
    let first = to_checksum_address(address);
    let second = to_checksum_address(address);
    assert_eq!(first, second);
}

#[test]
fn test_checksum_known_vectors() {
    assert_eq!(
        to_checksum_address("fb6916095ca1df60bb79ce92ce3ea74c37c5d359"),
        "fB6916095ca1df60bB79Ce92cE3Ea74c37c5d359"
    );
    assert_eq!(
        to_checksum_address("dbf03b407c01e7cd3cbea99509d93f8dddc8c6fb"),
        "dbF03B407c01E7cD3CBea99509d93f8DDDC8C6FB"
    );
    assert_eq!(
        to_checksum_address("d1220a0cf47c7b9be7a2e6ba89f429762e7b9adb"),
        "D1220A0cf47c7B9Be7A2E6BA89F429762e7b9aDb"
    );
}

#[test]
fn test_checksum_changes_case_only() {
    let address = "5aaeb6053f3e94c9b9a09f33669435e7ef1beaed";
    let encoded = to_checksum_address(address);
    assert_eq!(encoded.to_lowercase(), address);
    assert_ne!(encoded, address);
}

#[test]
fn test_verify_checksum_accepts_valid() {
    let valid = "0x5aAeb6053F3E94C9b9A09f33669435E7Ef1BeAed";
    assert!(verify_checksum(valid));
}

#[test]
fn test_verify_checksum_rejects_tampered_case() {
    let tampered = "0x5aaeb6053F3E94C9b9A09f33669435E7Ef1BeAed";
    assert!(!verify_checksum(tampered));
}

#[test]
fn test_verify_checksum_all_lowercase_makes_no_claim() {
    assert!(verify_checksum("0x5aaeb6053f3e94c9b9a09f33669435e7ef1beaed"));
    assert!(verify_checksum("0x"));
}

#[test]
fn test_verify_checksum_rejects_bad_length() {
    assert!(!verify_checksum("0xAB"));
}
