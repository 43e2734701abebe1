//! Backoff executor: a generic retry driver for any fallible zero-argument
//! operation, with exponentially growing delays capped at a maximum. The
//! attempt budget bounds the executor: it never retries indefinitely.

use vstd::prelude::*;

verus! {

/// Retry policy: the attempt budget and the delay bounds.
pub struct RetryConfig {
    pub max_retries: u32,
    pub initial_delay_ms: u64,
    pub max_delay_ms: u64,
}

impl Default for RetryConfig {
    /// Five attempts, starting at one second and capped at one minute.
    fn default() -> (r: RetryConfig)
        ensures
            r.max_retries == 5,
            r.initial_delay_ms == 1000,
            r.max_delay_ms == 60000,
    {
        RetryConfig { max_retries: 5, initial_delay_ms: 1000, max_delay_ms: 60000 }
    }
}

/// The delay slept after the given failed attempt (counted from one): the
/// initial delay, doubled after every further failure, capped at the
/// maximum. Jitter is deliberately omitted so the delay sequence is exactly
/// this function of the policy.
pub open spec fn backoff_delay(initial: u64, max: u64, attempt: u32) -> u64
    decreases attempt,
{
    if attempt <= 1 {
        if initial <= max {
            initial
        } else {
            max
        }
    } else {
        let prev = backoff_delay(initial, max, (attempt - 1) as u32);
        if prev > max / 2 {
            max
        } else {
            (prev * 2) as u64
        }
    }
}

/// The delay to sleep after failed attempt number `attempt`.
pub fn next_delay_ms(config: &RetryConfig, attempt: u32) -> (r: u64)
    ensures
        r == backoff_delay(config.initial_delay_ms, config.max_delay_ms, attempt),
{
    let mut d: u64 = if config.initial_delay_ms <= config.max_delay_ms {
        config.initial_delay_ms
    } else {
        config.max_delay_ms
    };
    let mut k: u32 = 1;
    while k < attempt
        invariant
            1 <= k,
            k <= attempt || k == 1,
            d == backoff_delay(config.initial_delay_ms, config.max_delay_ms, k),
        decreases attempt - k,
    {
        d = if d > config.max_delay_ms / 2 {
            config.max_delay_ms
        } else {
            d * 2
        };
        k += 1;
    }
    d
}

/// How many invocations a policy admits in all: `max_retries`, except that
/// even a zero budget invokes the operation once.
pub open spec fn attempt_budget(max_retries: u32) -> u32 {
    if max_retries == 0 {
        1u32
    } else {
        max_retries
    }
}

/// Run `operation` until it succeeds or the attempt budget is spent, calling
/// `wait` with the backoff delay between attempts; the caller supplies the
/// sleep (the surrounding program sleeps, tests record). The result pairs
/// the outcome with the number of invocations made: it never exceeds the
/// budget, the outcome is always that of an actual invocation, an error
/// comes back only once the whole budget is spent, and an operation that can
/// only succeed makes the executor return its success value. The operation
/// is re-invoked as a whole, so it must be safe to repeat.
pub fn retry_with_backoff<T, E, F: Fn() -> Result<T, E>, W: Fn(u64)>(
    config: &RetryConfig,
    operation: F,
    wait: W,
) -> (r: (Result<T, E>, u32))
    requires
        call_requires(operation, ()),
        forall|d: u64| #[trigger] call_requires(wait, (d,)),
    ensures
        1 <= r.1 <= attempt_budget(config.max_retries),
        match r.0 {
            Ok(v) => call_ensures(operation, (), Ok(v)),
            Err(e) => call_ensures(operation, (), Err(e)),
        },
        r.0 is Err ==> r.1 == attempt_budget(config.max_retries),
        (forall|ret: Result<T, E>| #[trigger] call_ensures(operation, (), ret) ==> ret is Ok)
            ==> r.0 is Ok,
{
    let mut attempt: u32 = 1;
    loop
        invariant
            call_requires(operation, ()),
            forall|d: u64| #[trigger] call_requires(wait, (d,)),
            1 <= attempt <= attempt_budget(config.max_retries),
        decreases config.max_retries - attempt,
    {
        match operation() {
            Ok(v) => {
                return (Ok(v), attempt);
            },
            Err(e) => {
                if attempt >= config.max_retries {
                    return (Err(e), attempt);
                }
                let d = next_delay_ms(config, attempt);
                wait(d);
                attempt = attempt + 1;
            },
        }
    }
}

} // verus!
