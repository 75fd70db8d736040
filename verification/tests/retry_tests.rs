use swan::http::HttpMethod;
use swan::retry::{AttemptOutcome, RetryPolicy};

fn policy(
    max_attempts: u32,
    base_delay_ms: u64,
    max_delay_ms: u64,
    exponential_base_milli: u64,
    jitter_ratio_milli: u64,
    idempotent_only: bool,
) -> RetryPolicy {
    RetryPolicy {
        max_attempts,
        base_delay_ms,
        max_delay_ms,
        exponential_base_milli,
        jitter_ratio_milli,
        idempotent_only,
    }
}

#[test]
fn test_retry_policy_default() {
    let policy = RetryPolicy::default();
    assert_eq!(policy.max_attempts, 3);
    assert_eq!(policy.base_delay_ms, 100);
    assert_eq!(policy.exponential_base_milli, 2000);
}

#[test]
fn test_calculate_delay() {
    let policy = RetryPolicy::exponential(3, 100);

    assert_eq!(policy.calculate_delay(0), 0);
    assert!(policy.calculate_delay(1) >= 100);
    assert!(policy.calculate_delay(2) >= 200);
    assert!(policy.calculate_delay(3) >= 400);
}

#[test]
fn test_should_retry_status() {
    let policy = RetryPolicy::default();

    assert!(policy.should_retry_status(500));
    assert!(policy.should_retry_status(502));
    assert!(policy.should_retry_status(429));
    assert!(policy.should_retry_status(408));

    assert!(!policy.should_retry_status(200));
    assert!(!policy.should_retry_status(400));
    assert!(!policy.should_retry_status(404));
}

#[test]
fn test_exponential_backoff_calculation() {
    let policy = policy(5, 100, 10000, 2000, 0, true);

    assert_eq!(policy.calculate_delay(0), 0);
    assert_eq!(policy.calculate_delay(1), 100);
    assert_eq!(policy.calculate_delay(2), 200);
    assert_eq!(policy.calculate_delay(3), 400);
    assert_eq!(policy.calculate_delay(4), 800);
}

#[test]
fn test_max_delay_cap() {
    let policy = policy(10, 1000, 5000, 2000, 0, true);

    let delay_6 = policy.calculate_delay(6);
    assert_eq!(delay_6, 5000);
}

#[test]
fn test_jitter_effect() {
    let policy = policy(3, 1000, 10000, 2000, 500, true);

    for _ in 0..10 {
        let delay = policy.calculate_delay(2);
        assert!(delay >= 2000);
        assert!(delay <= 3000);
    }
}

#[test]
fn test_fixed_delay_policy() {
    let policy = RetryPolicy::fixed(4, 500);

    assert_eq!(policy.calculate_delay(1), 500);
    assert_eq!(policy.calculate_delay(2), 500);
    assert_eq!(policy.calculate_delay(3), 500);
    assert_eq!(policy.exponential_base_milli, 1000);
}

#[test]
fn test_retry_status_conditions() {
    let policy = RetryPolicy::default();

    assert!(policy.should_retry_status(500));
    assert!(policy.should_retry_status(502));
    assert!(policy.should_retry_status(503));
    assert!(policy.should_retry_status(504));
    assert!(policy.should_retry_status(429));
    assert!(policy.should_retry_status(408));

    assert!(!policy.should_retry_status(200));
    assert!(!policy.should_retry_status(400));
    assert!(!policy.should_retry_status(401));
    assert!(!policy.should_retry_status(403));
    assert!(!policy.should_retry_status(404));
    assert!(!policy.should_retry_status(422));
}

#[test]
fn test_idempotent_method_detection() {
    assert!(RetryPolicy::is_idempotent_method(&HttpMethod::Get));
    assert!(RetryPolicy::is_idempotent_method(&HttpMethod::Put));
    assert!(RetryPolicy::is_idempotent_method(&HttpMethod::Delete));

    assert!(!RetryPolicy::is_idempotent_method(&HttpMethod::Post));
}

#[test]
fn test_exponential_progression() {
    let policy = RetryPolicy::exponential(10, 50);

    let delays: Vec<u64> = (1..=5).map(|attempt| policy.calculate_delay(attempt)).collect();

    for i in 1..delays.len() {
        let ratio = delays[i] as f64 / delays[i - 1] as f64;
        assert!(
            ratio >= 1.5 && ratio <= 2.5,
            "exponential growth ratio should be about 2.0, got {:.2}",
            ratio
        );
    }
}

#[test]
fn test_cumulative_delay_bounds() {
    let policy = policy(5, 100, 2000, 2000, 100, true);

    let total_delay: u64 = (1..=5).map(|attempt| policy.calculate_delay(attempt)).sum();

    assert!(total_delay >= 3000);
    assert!(total_delay <= 5000);
}

#[test]
fn test_jitter_distribution() {
    let policy = policy(3, 1000, 10000, 2000, 200, true);

    let mut delays = Vec::new();
    for _ in 0..100 {
        delays.push(policy.calculate_delay(2) as f64);
    }

    let min_delay = delays.iter().fold(f64::INFINITY, |a, &b| a.min(b));
    let max_delay = delays.iter().fold(0.0f64, |a, &b| a.max(b));
    let avg_delay = delays.iter().sum::<f64>() / delays.len() as f64;

    assert!(min_delay >= 2000.0);
    assert!(max_delay <= 2400.0);
    assert!(avg_delay >= 2100.0 && avg_delay <= 2300.0);
}

#[test]
fn test_zero_attempts() {
    let policy = RetryPolicy { max_attempts: 0, ..Default::default() };

    assert_eq!(policy.calculate_delay(0), 0);
    assert!(policy.calculate_delay(1) >= 100);
    assert!(policy.calculate_delay(1) <= 110);
}

#[test]
fn test_extreme_exponential_base() {
    let policy = policy(3, 10, 1000, 10000, 0, true);

    assert_eq!(policy.calculate_delay(1), 10);
    assert_eq!(policy.calculate_delay(2), 100);
    assert_eq!(policy.calculate_delay(3), 1000);
}

#[test]
fn test_fractional_exponential_base() {
    let policy = policy(4, 1000, 10000, 1500, 0, true);

    assert_eq!(policy.calculate_delay(1), 1000);
    assert_eq!(policy.calculate_delay(2), 1500);
    assert_eq!(policy.calculate_delay(3), 2250);
}

#[test]
fn test_boundary_status_codes() {
    let policy = RetryPolicy::default();

    assert!(!policy.should_retry_status(499));
    assert!(policy.should_retry_status(500));
    assert!(policy.should_retry_status(599));
    assert!(!policy.should_retry_status(600));

    assert!(policy.should_retry_status(429));
    assert!(policy.should_retry_status(408));
    assert!(!policy.should_retry_status(407));
    assert!(!policy.should_retry_status(409));
}

#[test]
fn test_policy_memory_footprint() {
    let policy = RetryPolicy::default();
    let size = std::mem::size_of_val(&policy);

    assert!(size <= 64, "RetryPolicy size {} bytes should be <= 64 bytes", size);
}

#[test]
fn test_delay_calculation_performance() {
    let policy = RetryPolicy::exponential(10, 100);

    let start = std::time::Instant::now();
    for attempt in 1..=1000u32 {
        let _ = policy.calculate_delay(attempt % 10);
    }
    let duration = start.elapsed();

    assert!(
        duration.as_millis() < 10,
        "delay calculation too slow: {}ms for 1000 operations",
        duration.as_millis()
    );
}

#[test]
fn test_cascading_failure_scenario() {
    let policy = policy(3, 100, 1000, 2000, 100, true);

    let failure_statuses = vec![503, 502, 500];

    for &status in &failure_statuses {
        assert!(
            policy.should_retry_status(status),
            "should retry status {} in cascading failure",
            status
        );
    }
}

#[test]
fn test_rate_limiting_scenario() {
    let policy = policy(5, 1000, 60000, 1500, 300, true);

    assert!(policy.should_retry_status(429));

    let delays: Vec<u64> = (1..=3).map(|attempt| policy.calculate_delay(attempt)).collect();

    assert!(delays[0] >= 1000);
    assert!(delays[1] >= 1400);
    assert!(delays[2] >= 2000);
}

#[test]
fn test_microservice_timeout_scenario() {
    let policy = policy(3, 50, 500, 2000, 0, true);

    let total_retry_time: u64 = (1..=3).map(|attempt| policy.calculate_delay(attempt)).sum();

    assert!(total_retry_time <= 1000, "microservice retry should be fast, got {}ms", total_retry_time);
}

#[test]
fn test_should_retry_gates() {
    let p = RetryPolicy { max_attempts: 3, jitter_ratio_milli: 0, ..Default::default() };
    let retryable = AttemptOutcome::Status { code: 503 };
    let terminal = AttemptOutcome::Status { code: 404 };

    // a retryable outcome with attempts left, on an idempotent verb
    assert!(p.should_retry(&retryable, 0, &HttpMethod::Get));
    assert!(p.should_retry(&retryable, 1, &HttpMethod::Get));
    // the last allowed attempt is never followed by another
    assert!(!p.should_retry(&retryable, 2, &HttpMethod::Get));
    // non-retryable outcome
    assert!(!p.should_retry(&terminal, 0, &HttpMethod::Get));
    // the idempotency gate blocks creations by default
    assert!(!p.should_retry(&retryable, 0, &HttpMethod::Post));
    let relaxed = RetryPolicy { idempotent_only: false, ..p };
    assert!(relaxed.should_retry(&retryable, 0, &HttpMethod::Post));
    // transport failures are retryable under the same gates
    assert!(p.should_retry(&AttemptOutcome::TransportFailure, 0, &HttpMethod::Get));
    assert!(!p.should_retry(&AttemptOutcome::TransportFailure, 2, &HttpMethod::Get));
}

#[test]
fn test_tiny_jitter_window_is_exact() {
    // a jitter window of a single millisecond leaves only one possible
    // draw, so the delay is pinned exactly
    let policy = policy(3, 1000, 10000, 2000, 1, true);
    assert_eq!(policy.calculate_delay(1), 1000);
}
