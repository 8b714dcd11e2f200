use hash_hunter::config::{
    resolve_thread_count, App, Config, Docker, Entropy, Files, Healthcheck, Output, Patterns,
    Performance, ProgressBar, Resources, Search, Security, Validation, Volume,
};

fn sample_config(regex: &str, threads: &str) -> Config {
    Config {
        version: "1".to_string(),
        app: App {
            name: "hash_hunter".to_string(),
            version: "0.1.0".to_string(),
            description: "vanity address search".to_string(),
            warning: "keys are ephemeral".to_string(),
        },
        search: Search {
            patterns: Patterns {
                start: "69".to_string(),
                end: "69696969".to_string(),
                regex: regex.to_string(),
            },
            validation: Validation {
                use_checksum: true,
                min_zeros: 2,
                verify_addresses: true,
            },
        },
        performance: Performance {
            step_size: 50_000,
            max_tries: 10_000_000,
            log_interval_ms: 15_000,
            threads: threads.to_string(),
            resources: Resources {
                cpu_limit_percent: 80,
                memory_limit: "512m".to_string(),
            },
        },
        output: Output {
            directory: "gen".to_string(),
            files: Files {
                log: "hunter.log".to_string(),
                success_marker: "SUCCESS".to_string(),
            },
            progress_bar: ProgressBar {
                template: "{pos}/{len}".to_string(),
                chars: "#>-".to_string(),
            },
        },
        docker: Docker {
            base_image: "debian:stable-slim".to_string(),
            builder_image: "rust:latest".to_string(),
            platforms: vec!["linux/amd64".to_string()],
            healthcheck: Healthcheck {
                interval: "30s".to_string(),
                timeout: "5s".to_string(),
                retries: 3,
            },
            volumes: vec![Volume {
                source: "./gen".to_string(),
                target: "/app/gen".to_string(),
            }],
        },
        security: Security {
            skip_confirmation: false,
            entropy: Entropy {
                guesses_per_second: 1_000_000_000_000,
                min_bits: 64,
            },
        },
    }
}

#[test]
fn test_resolve_thread_count() {
    assert!(resolve_thread_count("auto") >= 1);
    assert_eq!(resolve_thread_count("3"), 3);
    assert_eq!(resolve_thread_count("1"), 1);
    assert_eq!(resolve_thread_count("0"), 1);
    assert!(resolve_thread_count("not a number") >= 1);
    assert!(resolve_thread_count("") >= 1);
}

#[test]
fn test_config_to_criteria() {
    let cfg = sample_config("", "auto");
    let criteria = cfg.to_criteria().unwrap();
    assert!(hash_hunter::matcher::matches("69xx0069696969", &criteria));
    assert!(!hash_hunter::matcher::matches("68xx0069696969", &criteria));

    let with_regex = sample_config("^69", "auto");
    assert!(with_regex.to_criteria().is_some());

    let broken = sample_config("([oops", "auto");
    assert!(broken.to_criteria().is_none());
}

#[test]
fn test_config_to_limits() {
    let cfg = sample_config("", "2");
    let limits = cfg.to_limits();
    assert_eq!(limits.workers, 2);
    assert_eq!(limits.batch_step, 50_000);
    assert_eq!(limits.attempt_ceiling, 10_000_000);
    assert_eq!(limits.progress_interval_ms, 15_000);
}
