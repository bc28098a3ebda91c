use crashlab_core::retry::{
    capped_backoff_nanos, next_retry_step, RetryConfig, RetryStep, SimulationError,
};

const MS: u128 = 1_000_000;

#[test]
fn transient_error_is_classified_correctly() {
    let e = SimulationError::Transient("timeout".to_string());
    assert!(e.is_transient());
    let e2 = SimulationError::NonTransient("invalid input".to_string());
    assert!(!e2.is_transient());
}

#[test]
fn backoff_increases_exponentially() {
    let config = RetryConfig {
        max_attempts: 5,
        initial_backoff_nanos: 100 * MS,
        max_backoff_nanos: 10_000 * MS,
    };

    let b1 = capped_backoff_nanos(&config, 1);
    let b2 = capped_backoff_nanos(&config, 2);
    let b3 = capped_backoff_nanos(&config, 3);

    assert_eq!(b1, 100 * MS);
    assert_eq!(b2, 200 * MS);
    assert_eq!(b3, 400 * MS);
}

#[test]
fn backoff_is_capped() {
    let config = RetryConfig {
        max_attempts: 10,
        initial_backoff_nanos: 100 * MS,
        max_backoff_nanos: 500 * MS,
    };

    let b_default = capped_backoff_nanos(&config, 10);
    assert_eq!(b_default, 500 * MS);
}

// Own checks of the backoff and of the retry decisions.

#[test]
fn backoff_for_attempt_zero_is_zero() {
    assert_eq!(capped_backoff_nanos(&RetryConfig::default(), 0), 0);
}

#[test]
fn backoff_saturates_at_the_longest_duration() {
    let config = RetryConfig {
        max_attempts: 100,
        initial_backoff_nanos: u64::MAX as u128 * 1_000_000_000,
        max_backoff_nanos: u64::MAX as u128 * 1_000_000_000 + 999_999_999,
    };
    assert_eq!(capped_backoff_nanos(&config, 40), u64::MAX as u128 * 1_000_000_000 + 999_999_999);
}

#[test]
fn default_config_values() {
    let c = RetryConfig::default();
    assert_eq!(c.max_attempts, 5);
    assert_eq!(c.initial_backoff_nanos, 100 * MS);
    assert_eq!(c.max_backoff_nanos, 10_000 * MS);
}

#[test]
fn transient_failures_retry_until_max_attempts() {
    let c = RetryConfig::default();
    let e = SimulationError::Transient("x".to_string());
    assert_eq!(
        next_retry_step(&c, 1, &e),
        RetryStep::Retry { failed_attempt: 1, next_attempt: 2 }
    );
    assert_eq!(next_retry_step(&c, 5, &e), RetryStep::Stop);
    let n = SimulationError::NonTransient("y".to_string());
    assert_eq!(next_retry_step(&c, 1, &n), RetryStep::Stop);
}

#[test]
fn simulation_error_messages() {
    assert_eq!(SimulationError::Transient("t".to_string()).message(), "transient error: t");
    assert_eq!(SimulationError::NonTransient("n".to_string()).message(), "non-transient error: n");
}

#[test]
fn backoff_never_decreases_and_never_exceeds_the_cap() {
    let config = RetryConfig { max_attempts: 10, initial_backoff_nanos: 3 * MS, max_backoff_nanos: 50 * MS };
    let mut prev = 0;
    for attempt in 1..40 {
        let b = capped_backoff_nanos(&config, attempt);
        assert!(b >= prev);
        assert!(b <= 50 * MS);
        prev = b;
    }
}
