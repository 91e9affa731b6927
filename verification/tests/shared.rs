use mettle::shared::{after_attempt, should_retry_after, within_budget, AfterAttempt};
use mettle::{Backoff, ExponentialBackoff, ExponentialBackoffConfig};
use std::cell::Cell;
use std::time::Duration;

fn secs(n: u64) -> Duration {
    Duration::from_secs(n)
}

fn backoff(max_retries: u32) -> ExponentialBackoff {
    ExponentialBackoff::new(ExponentialBackoffConfig {
        factor: 2,
        base: secs(1),
        max_retries,
        max_delay: secs(100),
    })
    .unwrap()
}

#[test]
fn within_budget_is_strict() {
    assert!(within_budget(secs(7), secs(2), secs(10)));
    assert!(!within_budget(secs(7), secs(3), secs(10)));
    assert!(!within_budget(secs(7), secs(8), secs(10)));
    assert!(!within_budget(Duration::MAX, secs(1), Duration::MAX)); // the sum saturates
}

#[test]
fn non_retryable_error_does_not_consume_the_backoff() {
    let mut b = backoff(2);
    let r = should_retry_after(&"fatal", &|_e: &&str| false, &mut b, None, || secs(0));
    assert_eq!(r, None);
    assert_eq!(b.next_delay(), Some(secs(1))); // still at the start
}

#[test]
fn retryable_error_gets_the_next_delay() {
    let mut b = backoff(2);
    assert_eq!(should_retry_after(&"e", &|_e: &&str| true, &mut b, None, || secs(0)), Some(secs(1)));
    assert_eq!(should_retry_after(&"e", &|_e: &&str| true, &mut b, None, || secs(0)), Some(secs(2)));
    assert_eq!(should_retry_after(&"e", &|_e: &&str| true, &mut b, None, || secs(0)), None);
}

#[test]
fn clock_is_read_only_under_a_budget() {
    let reads = Cell::new(0);
    let mut b = backoff(3);
    let elapsed = || {
        reads.set(reads.get() + 1);
        secs(0)
    };
    assert_eq!(should_retry_after(&"e", &|_e: &&str| true, &mut b, None, elapsed), Some(secs(1)));
    assert_eq!(reads.get(), 0);
    let elapsed = || {
        reads.set(reads.get() + 1);
        secs(0)
    };
    assert_eq!(should_retry_after(&"e", &|_e: &&str| true, &mut b, Some(secs(100)), elapsed), Some(secs(2)));
    assert_eq!(reads.get(), 1);
}

#[test]
fn budget_spent_gives_up() {
    let mut b = backoff(3);
    assert_eq!(should_retry_after(&"e", &|_e: &&str| true, &mut b, Some(secs(10)), || secs(9)), None);
}

#[test]
fn after_attempt_finishes_on_success() {
    let mut b = backoff(3);
    let mut attempt = 0u32;
    let r: AfterAttempt<i32, &str> =
        after_attempt(Ok(5), &|_e: &&str| true, &mut b, None, &mut attempt, || secs(0));
    assert!(matches!(r, AfterAttempt::Finish(Ok(5))));
    assert_eq!(attempt, 0);
}

#[test]
fn after_attempt_waits_and_counts() {
    let mut b = backoff(1);
    let mut attempt = 0u32;
    let r: AfterAttempt<i32, &str> =
        after_attempt(Err("e"), &|_e: &&str| true, &mut b, None, &mut attempt, || secs(0));
    assert!(matches!(r, AfterAttempt::Wait { delay, error: "e" } if delay == secs(1)));
    assert_eq!(attempt, 1);
    let r: AfterAttempt<i32, &str> =
        after_attempt(Err("e"), &|_e: &&str| true, &mut b, None, &mut attempt, || secs(0));
    assert!(matches!(r, AfterAttempt::Finish(Err("e"))));
    assert_eq!(attempt, 1);
}

#[test]
fn after_attempt_stops_when_the_count_is_full() {
    let mut b = backoff(3);
    let mut attempt = u32::MAX;
    let r: AfterAttempt<i32, &str> =
        after_attempt(Err("e"), &|_e: &&str| true, &mut b, None, &mut attempt, || secs(0));
    assert!(matches!(r, AfterAttempt::Finish(Err("e"))));
    assert_eq!(b.next_delay(), Some(secs(1))); // backoff untouched
}
