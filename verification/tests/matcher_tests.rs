use hash_hunter::matcher::SearchCriteria;

fn criteria(
    prefix: &str,
    suffix: &str,
    min_zeros: usize,
    pattern: Option<&str>,
) -> Option<SearchCriteria> {
    SearchCriteria::new(
        prefix.to_string(),
        suffix.to_string(),
        min_zeros,
        pattern.map(|p| p.to_string()),
        false,
    )
}

#[test]
fn test_pattern_matching() {
    let test_cases = vec![
        ("0x1234", "4321", true),
        ("0xabcd", "dcba", true),
        ("0x0000", "0000", true),
    ];

    for (start, end, should_match) in test_cases {
        let address = format!("{}middle{}", start, end);
        let c = criteria(start, end, 0, None).unwrap();
        assert_eq!(
            hash_hunter::matcher::matches(&address, &c),
            should_match,
            "Pattern matching failed for {}",
            address
        );
    }

    // an address that carries neither the wanted prefix's suffix nor the
    // wanted suffix does not match
    let address = format!("{}middle{}", "0x1234", "4321");
    let c = criteria("0x1234", "5678", 0, None).unwrap();
    assert!(
        !hash_hunter::matcher::matches(&address, &c),
        "Pattern matching failed for {}",
        address
    );
}

#[test]
fn test_trivial_criteria_match_everything() {
    let c = criteria("", "", 0, None).unwrap();
    assert!(hash_hunter::matcher::matches("", &c));
    assert!(hash_hunter::matcher::matches("anything at all", &c));
    assert!(hash_hunter::matcher::matches("0x1234abcd", &c));
}

#[test]
fn test_min_zeros() {
    let c = criteria("", "", 3, None).unwrap();
    assert!(hash_hunter::matcher::matches("a0b0c0d", &c));
    assert!(!hash_hunter::matcher::matches("a0b0cd", &c));
    assert!(hash_hunter::matcher::matches("000", &c));
}

#[test]
fn test_regex_pattern() {
    let c = criteria("", "", 0, Some("^dead.*beef$")).unwrap();
    assert!(hash_hunter::matcher::matches("deadbeef", &c));
    assert!(hash_hunter::matcher::matches("dead1234beef", &c));
    assert!(!hash_hunter::matcher::matches("deadbeef1", &c));
}

#[test]
fn test_invalid_regex_is_rejected_at_build_time() {
    assert!(criteria("", "", 0, Some("([unclosed")).is_none());
}
