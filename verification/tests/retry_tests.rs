use std::cell::Cell;

use device_agent::retry::{next_delay_ms, retry_with_backoff, RetryConfig};

fn no_wait_config(max_retries: u32) -> RetryConfig {
    RetryConfig { max_retries, initial_delay_ms: 0, max_delay_ms: 0 }
}

#[test]
fn always_failing_operation_runs_exactly_max_retries_times() {
    let config = no_wait_config(3);
    let calls = Cell::new(0u32);
    let (r, attempts): (Result<(), String>, u32) = retry_with_backoff(
        &config,
        || {
            calls.set(calls.get() + 1);
            Err(format!("failure #{}", calls.get()))
        },
        |_delay| {},
    );
    assert_eq!(calls.get(), 3, "the operation must be invoked exactly 3 times");
    assert_eq!(attempts, 3);
    assert_eq!(r.unwrap_err(), "failure #3", "the last error must be returned");
}

#[test]
fn operation_failing_twice_then_succeeding_runs_three_times() {
    let config = no_wait_config(5);
    let calls = Cell::new(0u32);
    let (r, attempts): (Result<u32, String>, u32) = retry_with_backoff(
        &config,
        || {
            calls.set(calls.get() + 1);
            if calls.get() <= 2 {
                Err("transient".to_string())
            } else {
                Ok(42)
            }
        },
        |_delay| {},
    );
    assert_eq!(calls.get(), 3, "the operation must be invoked exactly 3 times");
    assert_eq!(attempts, 3);
    assert_eq!(r.unwrap(), 42);
}

#[test]
fn immediate_success_runs_once_and_never_waits() {
    let config = RetryConfig { max_retries: 5, initial_delay_ms: 1000, max_delay_ms: 60000 };
    let calls = Cell::new(0u32);
    let waits = Cell::new(0u32);
    let (r, attempts): (Result<&str, &str>, u32) = retry_with_backoff(
        &config,
        || {
            calls.set(calls.get() + 1);
            Ok("done")
        },
        |_delay| waits.set(waits.get() + 1),
    );
    assert_eq!(r.unwrap(), "done");
    assert_eq!(calls.get(), 1);
    assert_eq!(attempts, 1);
    assert_eq!(waits.get(), 0);
}

#[test]
fn zero_retry_budget_still_invokes_the_operation_once() {
    let config = no_wait_config(0);
    let calls = Cell::new(0u32);
    let (r, attempts): (Result<(), &str>, u32) = retry_with_backoff(
        &config,
        || {
            calls.set(calls.get() + 1);
            Err("nope")
        },
        |_delay| {},
    );
    assert_eq!(calls.get(), 1);
    assert_eq!(attempts, 1);
    assert_eq!(r.unwrap_err(), "nope");
}

#[test]
fn delays_grow_exponentially_up_to_the_cap() {
    let config = RetryConfig { max_retries: 10, initial_delay_ms: 1000, max_delay_ms: 60000 };
    assert_eq!(next_delay_ms(&config, 1), 1000);
    assert_eq!(next_delay_ms(&config, 2), 2000);
    assert_eq!(next_delay_ms(&config, 3), 4000);
    assert_eq!(next_delay_ms(&config, 6), 32000);
    assert_eq!(next_delay_ms(&config, 7), 60000);
    assert_eq!(next_delay_ms(&config, 8), 60000);
}

#[test]
fn initial_delay_is_clamped_to_the_maximum() {
    let config = RetryConfig { max_retries: 3, initial_delay_ms: 5000, max_delay_ms: 100 };
    assert_eq!(next_delay_ms(&config, 1), 100);
    assert_eq!(next_delay_ms(&config, 2), 100);
}

#[test]
fn executor_waits_with_the_backoff_delays_between_attempts() {
    let config = RetryConfig { max_retries: 4, initial_delay_ms: 1000, max_delay_ms: 60000 };
    let waited = std::cell::RefCell::new(Vec::new());
    let (r, _attempts): (Result<(), &str>, u32) = retry_with_backoff(
        &config,
        || Err("always"),
        |delay| waited.borrow_mut().push(delay),
    );
    assert!(r.is_err());
    assert_eq!(*waited.borrow(), vec![1000u64, 2000, 4000]);
}

#[test]
fn default_retry_config_matches_the_documented_policy() {
    let config = RetryConfig::default();
    assert_eq!(config.max_retries, 5);
    assert_eq!(config.initial_delay_ms, 1000);
    assert_eq!(config.max_delay_ms, 60000);
}
