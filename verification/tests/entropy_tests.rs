use hash_hunter::calculate_years_to_crack;
use hash_hunter::entropy::estimate_entropy_bits;

#[test]
fn test_entropy_calculation() {
    let test_cases = vec![
        ("0x1234567890abcdef", 64.0),
        ("0x0000000000000000", 64.0),
        ("0xffffffffffffffff", 64.0),
    ];

    for (address, expected_bits) in test_cases {
        let entropy_bits = estimate_entropy_bits(address);
        assert_eq!(entropy_bits as f64, expected_bits);
    }
}

#[test]
fn test_entropy_of_full_address() {
    assert_eq!(
        estimate_entropy_bits("0x5aaeb6053f3e94c9b9a09f33669435e7ef1beaed"),
        160
    );
    assert_eq!(estimate_entropy_bits(""), 0);
    assert_eq!(estimate_entropy_bits("abcd"), 16);
}

#[test]
fn test_years_to_crack_strictly_increases() {
    let y32 = calculate_years_to_crack(32);
    let y64 = calculate_years_to_crack(64);
    let y128 = calculate_years_to_crack(128);
    assert!(y32.is_positive());
    assert!(y32.lt(&y64));
    assert!(y64.lt(&y128));
    assert!(!y128.lt(&y64));
}

#[test]
fn test_years_to_crack_exact_values() {
    // a year of guessing covers 31_557_600_000_000_000_000 candidates
    let y0 = calculate_years_to_crack(0);
    assert_eq!(y0.whole, 0);
    assert_eq!(y0.frac, 1);

    let y64 = calculate_years_to_crack(64);
    assert_eq!(y64.whole, 0);
    assert_eq!(y64.frac, 18446744073709551616);

    let y96 = calculate_years_to_crack(96);
    assert_eq!(y96.whole, 2510588971);
    assert_eq!(y96.frac, 3034737593543950336);

    let y128 = calculate_years_to_crack(128);
    assert_eq!(y128.whole, 10782897524556318080);
    assert_eq!(y128.frac, 21966607431768211456);

    let y160 = calculate_years_to_crack(160);
    assert_eq!(y160.whole, 46312192224088743066763151593);
    assert_eq!(y160.frac, 5026219655932542976);
}
