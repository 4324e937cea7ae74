use std::time::Duration;

use michi::resilience::{backoff_raw_ms, finish_retry_delay, Delay};

struct Config {
    max_retries: u32,
    base_delay: Duration,
    max_delay: Duration,
    jitter_factor: f64,
}

impl Default for Config {
    fn default() -> Self {
        Config { max_retries: 3, base_delay: Duration::from_millis(500), max_delay: Duration::from_secs(30), jitter_factor: 0.2 }
    }
}

fn delay(d: Duration) -> Delay {
    Delay::new(d.as_secs(), d.subsec_nanos())
}

fn duration(d: Delay) -> Duration {
    Duration::new(d.as_secs(), d.subsec_nanos())
}

/// The back-off and cap come from the library; the jitter is drawn in floats.
fn next_retry_delay(config: &Config, attempt: u32, jitter_seed: f64, retry_after: Option<Duration>) -> Option<Duration> {
    let jitter_seed = if jitter_seed.is_finite() { jitter_seed.clamp(0.0, 1.0) } else { 0.0 };
    let raw_ms = backoff_raw_ms(delay(config.base_delay), attempt);
    let jitter_ms = (raw_ms as f64 * config.jitter_factor * jitter_seed) as u64;
    finish_retry_delay(config.max_retries, attempt, raw_ms, jitter_ms, retry_after.map(delay), delay(config.max_delay))
        .map(duration)
}

#[test]
fn first_retry_uses_base_delay() {
    let config = Config::default();
    let delay = next_retry_delay(&config, 0, 0.0, None).expect("first retry delay calculated");
    assert_eq!(delay, config.base_delay);
}

#[test]
fn second_retry_doubles() {
    let config = Config { jitter_factor: 0.0, ..Default::default() };
    let delay = next_retry_delay(&config, 1, 0.0, None).expect("attempt 1 is within max_retries");
    assert_eq!(delay, config.base_delay * 2);
}

#[test]
fn delay_is_capped_at_max() {
    let config =
        Config { base_delay: Duration::from_secs(1), max_delay: Duration::from_secs(5), jitter_factor: 0.0, max_retries: 10 };
    let delay = next_retry_delay(&config, 5, 0.0, None).expect("attempt 5 is within max_retries=10");
    assert_eq!(delay, Duration::from_secs(5));
}

#[test]
fn beyond_max_retries_returns_none() {
    let config = Config::default();
    assert!(next_retry_delay(&config, 3, 0.0, None).is_none());
}

#[test]
fn jitter_increases_delay() {
    let config = Config {
        jitter_factor: 1.0,
        base_delay: Duration::from_millis(100),
        max_delay: Duration::from_secs(30),
        max_retries: 3,
    };
    let no_jitter = next_retry_delay(&Config { jitter_factor: 0.0, ..config }, 0, 0.0, None)
        .expect("attempt 0 within max_retries");
    let config = Config {
        jitter_factor: 1.0,
        base_delay: Duration::from_millis(100),
        max_delay: Duration::from_secs(30),
        max_retries: 3,
    };
    let with_jitter = next_retry_delay(&config, 0, 1.0, None).expect("attempt 0 within max_retries");
    assert!(with_jitter > no_jitter, "jitter seed 1.0 should produce longer delay");
}

#[test]
fn jitter_never_exceeds_max_delay_when_base_already_capped() {
    let config =
        Config { base_delay: Duration::from_secs(1), max_delay: Duration::from_secs(5), jitter_factor: 1.0, max_retries: 10 };
    let delay = next_retry_delay(&config, 5, 1.0, None).expect("attempt 5 within max_retries=10");
    assert!(delay <= config.max_delay, "delay {delay:?} exceeded max_delay {:?}", config.max_delay);
}

#[test]
fn extreme_duration_saturates_instead_of_wrapping() {
    let huge = Duration::from_secs(18_446_744_073_709_552);
    let config = Config { base_delay: huge, max_delay: huge, jitter_factor: 0.0, max_retries: 10 };
    let delay = next_retry_delay(&config, 0, 0.0, None).expect("attempt 0 within max_retries");
    assert!(delay.as_millis() > 1_000_000_000_000, "delay {delay:?} wrapped to a tiny value");
}

#[test]
fn retry_after_wins_when_larger_than_backoff() {
    let config = Config { jitter_factor: 0.0, ..Default::default() };
    let delay = next_retry_delay(&config, 0, 0.0, Some(Duration::from_secs(5))).expect("attempt 0 within max_retries");
    assert_eq!(delay, Duration::from_secs(5));
}

#[test]
fn backoff_wins_when_larger_than_retry_after() {
    let config = Config { jitter_factor: 0.0, base_delay: Duration::from_secs(10), ..Default::default() };
    let delay = next_retry_delay(&config, 0, 0.0, Some(Duration::from_secs(1))).expect("attempt 0 within max_retries");
    assert_eq!(delay, Duration::from_secs(10));
}

#[test]
fn retry_after_still_capped_at_max_delay() {
    let config = Config { jitter_factor: 0.0, max_delay: Duration::from_secs(5), ..Default::default() };
    let delay =
        next_retry_delay(&config, 0, 0.0, Some(Duration::from_secs(999))).expect("attempt 0 within max_retries");
    assert_eq!(delay, Duration::from_secs(5), "retry_after must not bypass max_delay");
}

#[test]
fn retry_after_wins_over_backoff_with_jitter_applied() {
    let config = Config { jitter_factor: 1.0, base_delay: Duration::from_secs(1), ..Default::default() };
    let delay = next_retry_delay(&config, 0, 1.0, Some(Duration::from_secs(5))).expect("attempt 0 within max_retries");
    assert_eq!(delay, Duration::from_secs(5));
}

#[test]
fn jittered_backoff_wins_over_smaller_retry_after() {
    let config = Config { jitter_factor: 1.0, base_delay: Duration::from_secs(1), ..Default::default() };
    let delay =
        next_retry_delay(&config, 0, 1.0, Some(Duration::from_millis(500))).expect("attempt 0 within max_retries");
    assert_eq!(delay, Duration::from_secs(2));
}
