use hash_hunter::keygen::Candidate;
use hash_hunter::matcher::SearchCriteria;
use hash_hunter::search::{
    run, run_with_generator, Generator, Outcome, ResultSlot, SearchLimits,
};
use hash_hunter::VanityResult;

fn trivial_criteria(use_checksum: bool) -> SearchCriteria {
    SearchCriteria::new(String::new(), String::new(), 0, None, use_checksum).unwrap()
}

fn limits(workers: usize, ceiling: u64) -> SearchLimits {
    SearchLimits {
        workers,
        batch_step: 1000,
        attempt_ceiling: ceiling,
        progress_interval_ms: 1000,
    }
}

fn stub_candidate() -> Candidate {
    Candidate {
        secret: vec![0x01; 32],
        public_key: vec![0x04; 65],
        address: "00aa11bb22cc33dd44ee55ff66aa77bb88cc99dd".to_string(),
    }
}

#[test]
fn test_zero_ceiling_exhausts_without_error() {
    let c = trivial_criteria(true);
    let r = run(&c, &limits(1, 0)).unwrap();
    assert!(matches!(r, Outcome::Exhausted { attempts: 0 }));

    let narrow = SearchCriteria::new("ffff".to_string(), "".to_string(), 5, None, false).unwrap();
    let r = run(&narrow, &limits(4, 0)).unwrap();
    assert!(matches!(r, Outcome::Exhausted { attempts: 0 }));
}

#[test]
fn test_fixed_generator_finds_in_one_attempt() {
    let c = trivial_criteria(false);
    let g = Generator::Fixed(stub_candidate());
    let r = run_with_generator(&c, &limits(1, 10), &g).unwrap();
    match r {
        Outcome::Found { result, verified } => {
            assert_eq!(result.attempts, 1);
            assert_eq!(
                result.address,
                "0x00aa11bb22cc33dd44ee55ff66aa77bb88cc99dd"
            );
            assert_eq!(result.priv_key, "01".repeat(32));
            assert!(!verified);
        },
        Outcome::Exhausted { .. } => panic!("expected a find"),
    }
}

#[test]
fn test_many_workers_produce_one_result() {
    let c = trivial_criteria(false);
    let g = Generator::Fixed(stub_candidate());
    let r = run_with_generator(&c, &limits(8, 1_000_000), &g).unwrap();
    match r {
        Outcome::Found { result, .. } => assert_eq!(result.attempts, 1),
        Outcome::Exhausted { .. } => panic!("expected a find"),
    }
}

#[test]
fn test_random_search_finds_and_verifies() {
    let c = trivial_criteria(true);
    let r = run(&c, &limits(2, 1000)).unwrap();
    match r {
        Outcome::Found { result, verified } => {
            assert!(verified);
            assert!(result.attempts >= 1);
            assert!(result.address.starts_with("0x"));
            assert_eq!(result.address.len(), 42);
            assert_eq!(result.priv_key.len(), 64);
        },
        Outcome::Exhausted { .. } => panic!("trivial criteria must match the first candidate"),
    }
}

#[test]
fn test_unsatisfiable_search_exhausts() {
    let impossible =
        SearchCriteria::new("not hex so never".to_string(), String::new(), 0, None, false)
            .unwrap();
    let r = run(&impossible, &limits(2, 25)).unwrap();
    match r {
        Outcome::Exhausted { attempts } => assert!(attempts >= 25),
        Outcome::Found { .. } => panic!("criteria are unsatisfiable"),
    }
}

#[test]
fn test_checksum_mode_matches_cased_prefix() {
    // the checksum form of this fixed address starts with "00aA"
    let cand = stub_candidate();
    let cased = hash_hunter::to_checksum_address(&cand.address);
    let prefix: String = cased.chars().take(4).collect();
    let c = SearchCriteria::new(prefix, String::new(), 0, None, true).unwrap();
    let g = Generator::Fixed(cand);
    let r = run_with_generator(&c, &limits(1, 10), &g).unwrap();
    match r {
        Outcome::Found { result, .. } => {
            assert_eq!(result.attempts, 1);
            assert_eq!(result.address, format!("0x{}", cased));
        },
        Outcome::Exhausted { .. } => panic!("expected a find"),
    }
}

#[test]
fn test_result_slot_keeps_first_publish() {
    let mut slot = ResultSlot::empty();
    let first = VanityResult {
        address: "0xaaaa".to_string(),
        priv_key: "11".to_string(),
        attempts: 1,
    };
    let second = VanityResult {
        address: "0xbbbb".to_string(),
        priv_key: "22".to_string(),
        attempts: 2,
    };
    assert!(slot.publish(first));
    assert!(!slot.publish(second));
    let kept = slot.take().unwrap();
    assert_eq!(kept.address, "0xaaaa");
    assert_eq!(kept.attempts, 1);
}
