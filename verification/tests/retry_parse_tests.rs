use swan::retry_parse::RetryConfig;

#[test]
fn test_parse_exponential_simple() {
    let result = RetryConfig::parse("exponential(3, 100ms)").unwrap();

    assert_eq!(result.policy.max_attempts, 3);
    assert_eq!(result.policy.base_delay_ms, 100);
    assert_eq!(result.policy.exponential_base_milli, 2000);
}

#[test]
fn test_parse_exponential_detailed() {
    let result =
        RetryConfig::parse("exponential(max_attempts=5, base_delay=200ms, max_delay=10s)").unwrap();

    assert_eq!(result.policy.max_attempts, 5);
    assert_eq!(result.policy.base_delay_ms, 200);
    assert_eq!(result.policy.max_delay_ms, 10000);
}

#[test]
fn test_parse_fixed() {
    let result = RetryConfig::parse("fixed(max_attempts=3, delay=500ms)").unwrap();

    assert_eq!(result.policy.max_attempts, 3);
    assert_eq!(result.policy.base_delay_ms, 500);
    assert_eq!(result.policy.exponential_base_milli, 1000);
}

#[test]
fn test_parse_duration() {
    assert_eq!(RetryConfig::parse_duration("100ms").unwrap(), 100);
    assert_eq!(RetryConfig::parse_duration("2s").unwrap(), 2000);
    // a bare number has no unit: configuration-time error
    assert!(RetryConfig::parse_duration("500").is_err());
}

#[test]
fn test_parse_simple_exponential() {
    let result = RetryConfig::parse("exponential(3, 100ms)").unwrap();

    assert_eq!(result.policy.max_attempts, 3);
    assert_eq!(result.policy.base_delay_ms, 100);
    assert_eq!(result.policy.exponential_base_milli, 2000);
    assert_eq!(result.policy.jitter_ratio_milli, 100);
    assert!(result.policy.idempotent_only);
}

#[test]
fn test_parse_detailed_exponential() {
    let result = RetryConfig::parse(
        "exponential(max_attempts=7, base_delay=250ms, max_delay=30s, exponential_base=1.5, jitter_ratio=0.3)",
    )
    .unwrap();

    assert_eq!(result.policy.max_attempts, 7);
    assert_eq!(result.policy.base_delay_ms, 250);
    assert_eq!(result.policy.max_delay_ms, 30000);
    assert_eq!(result.policy.exponential_base_milli, 1500);
    assert_eq!(result.policy.jitter_ratio_milli, 300);
}

#[test]
fn test_parse_fixed_delay() {
    let result = RetryConfig::parse("fixed(max_attempts=5, delay=2s)").unwrap();

    assert_eq!(result.policy.max_attempts, 5);
    assert_eq!(result.policy.base_delay_ms, 2000);
    assert_eq!(result.policy.max_delay_ms, 2000);
    assert_eq!(result.policy.exponential_base_milli, 1000);
}

#[test]
fn test_parse_with_non_idempotent() {
    let result =
        RetryConfig::parse("exponential(max_attempts=3, base_delay=100ms, idempotent_only=false)")
            .unwrap();

    assert_eq!(result.policy.max_attempts, 3);
    assert!(!result.policy.idempotent_only);
}

#[test]
fn test_parse_duration_formats() {
    assert_eq!(RetryConfig::parse_duration("100ms").unwrap(), 100);
    assert_eq!(RetryConfig::parse_duration("1500ms").unwrap(), 1500);

    assert_eq!(RetryConfig::parse_duration("1s").unwrap(), 1000);
    assert_eq!(RetryConfig::parse_duration("5s").unwrap(), 5000);

    // durations carry an explicit unit; a bare number is rejected
    assert!(RetryConfig::parse_duration("300").is_err());
}

#[test]
fn test_parse_invalid_configs() {
    assert!(RetryConfig::parse("invalid_format").is_err());
    assert!(RetryConfig::parse("exponential(invalid_number)").is_err());
    assert!(RetryConfig::parse("exponential(max_attempts=abc)").is_err());
}

#[test]
fn test_parse_edge_cases() {
    let result = RetryConfig::parse("exponential(1, 1ms)").unwrap();
    assert_eq!(result.policy.max_attempts, 1);
    assert_eq!(result.policy.base_delay_ms, 1);

    let result =
        RetryConfig::parse("exponential(max_attempts=100, base_delay=1ms, max_delay=3600s)")
            .unwrap();
    assert_eq!(result.policy.max_attempts, 100);
    assert_eq!(result.policy.max_delay_ms, 3600000);
}

#[test]
fn test_whitespace_handling() {
    let configs = vec![
        "exponential(3, 100ms)",
        "exponential( 3 , 100ms )",
        "exponential( 3, 100ms)",
        "exponential(3 ,100ms )",
    ];

    for config_str in configs {
        let result = RetryConfig::parse(config_str);
        assert!(result.is_ok(), "failed to parse: {}", config_str);
        assert_eq!(result.unwrap().policy.max_attempts, 3);
    }
}

#[test]
fn test_parameter_order_independence() {
    let result1 = RetryConfig::parse("exponential(max_attempts=3, base_delay=100ms)").unwrap();
    let result2 = RetryConfig::parse("exponential(base_delay=100ms, max_attempts=3)").unwrap();

    assert_eq!(result1.policy.max_attempts, result2.policy.max_attempts);
    assert_eq!(result1.policy.base_delay_ms, result2.policy.base_delay_ms);
}

#[test]
fn test_mixed_parameter_formats() {
    // a literal either names every parameter or names none; mixing the
    // positional and the key=value form is rejected outright
    let result = RetryConfig::parse("exponential(5, 200ms, max_delay=30s, jitter_ratio=0.15)");
    assert!(result.is_err());
}

#[test]
fn test_duration_parsing_variants() {
    assert_eq!(RetryConfig::parse_duration("0ms").unwrap(), 0);
    assert_eq!(RetryConfig::parse_duration("999ms").unwrap(), 999);
    assert_eq!(RetryConfig::parse_duration("1s").unwrap(), 1000);
    assert_eq!(RetryConfig::parse_duration("60s").unwrap(), 60000);
    // unit-less durations are rejected
    assert!(RetryConfig::parse_duration("500").is_err());

    assert!(RetryConfig::parse_duration("100x").is_err());
    assert!(RetryConfig::parse_duration("abc").is_err());
    assert!(RetryConfig::parse_duration("").is_err());
}

#[test]
fn test_malformed_configs() {
    let malformed_configs = vec![
        "exponential(",
        "exponential)",
        "exponential(,)",
        "exponential(3,)",
        "exponential(3, 100)",
        "exponential(max_attempts)",
        "fixed(delay=100ms)",
        "unknown_strategy(3, 100ms)",
    ];

    for config_str in malformed_configs {
        let result = RetryConfig::parse(config_str);
        assert!(result.is_err(), "should fail for: {}", config_str);
    }
}

#[test]
fn test_config_parsing_performance() {
    let start = std::time::Instant::now();
    for _ in 0..100 {
        let _ = RetryConfig::parse("exponential(max_attempts=5, base_delay=100ms, max_delay=10s)")
            .unwrap();
    }
    let duration = start.elapsed();

    assert!(
        duration.as_millis() < 100,
        "config parsing too slow: {}ms for 100 operations",
        duration.as_millis()
    );
}

#[test]
fn test_parse_keeps_raw_literal() {
    let result = RetryConfig::parse("exponential(3, 100ms)").unwrap();
    assert_eq!(result.raw_config, "exponential(3, 100ms)");
}

#[test]
fn test_parse_rejects_out_of_range_ratios() {
    // a jitter ratio above one and a growth factor below one are both
    // outside the policy's domain
    assert!(RetryConfig::parse("exponential(max_attempts=3, jitter_ratio=1.5)").is_err());
    assert!(RetryConfig::parse("exponential(max_attempts=3, exponential_base=0.5)").is_err());
    // the bounds themselves are accepted
    let r = RetryConfig::parse("exponential(max_attempts=3, jitter_ratio=1.0, exponential_base=1.0)")
        .unwrap();
    assert_eq!(r.policy.jitter_ratio_milli, 1000);
    assert_eq!(r.policy.exponential_base_milli, 1000);
}

#[test]
fn test_duplicate_named_parameters_last_wins() {
    let r = RetryConfig::parse("exponential(max_attempts=2, max_attempts=4)").unwrap();
    assert_eq!(r.policy.max_attempts, 4);
}

#[test]
fn test_decimal_whole_number_values() {
    let r = RetryConfig::parse("exponential(max_attempts=3, exponential_base=2, jitter_ratio=0)")
        .unwrap();
    assert_eq!(r.policy.exponential_base_milli, 2000);
    assert_eq!(r.policy.jitter_ratio_milli, 0);
}
