use mettle::blocking::{retry, Clock};
use mettle::{ExponentialBackoff, ExponentialBackoffConfig};
use std::sync::{Arc, Mutex};
use std::time::{Duration, Instant};

/// A mock clock: records each sleep, advances a *virtual* now, returns instantly.
#[derive(Clone)]
struct MockClock {
    start: Instant,
    elapsed: Arc<Mutex<Duration>>,
    log: Arc<Mutex<Vec<Duration>>>,
}

impl MockClock {
    fn new() -> Self {
        Self {
            start: Instant::now(),
            elapsed: Arc::new(Mutex::new(Duration::ZERO)),
            log: Arc::new(Mutex::new(Vec::new())),
        }
    }
    fn slept(&self) -> Vec<Duration> {
        self.log.lock().unwrap().clone()
    }
}

impl Clock for MockClock {
    fn now(&self) -> Instant {
        self.start + *self.elapsed.lock().unwrap()
    }
    fn sleep(&self, dur: Duration) {
        self.log.lock().unwrap().push(dur);
        *self.elapsed.lock().unwrap() += dur;
    }
}

fn backoff(max_retries: u32) -> ExponentialBackoff {
    ExponentialBackoff::new(ExponentialBackoffConfig {
        factor: 2,
        base: Duration::from_secs(1),
        max_retries,
        max_delay: Duration::from_secs(100),
    })
    .unwrap()
}

fn secs(n: u64) -> Duration {
    Duration::from_secs(n)
}

#[test]
fn retry_succeeds_first_try() {
    let clock = MockClock::new();
    let result: Result<i32, ()> = retry(|| Ok(42)).clock(clock.clone()).call();
    assert_eq!(result, Ok(42));
    assert!(clock.slept().is_empty());
}

#[test]
fn retry_retries_then_succeeds() {
    let clock = MockClock::new();
    let mut n = 0;
    let result: Result<i32, &str> = retry(|| {
        n += 1;
        if n < 3 { Err("boom") } else { Ok(42) }
    })
    .backoff(backoff(5))
    .clock(clock.clone())
    .call();

    assert_eq!(result, Ok(42));
    assert_eq!(n, 3); // 2 failures + 1 success
    assert_eq!(clock.slept(), vec![secs(1), secs(2)]);
}

#[test]
fn retry_stops_on_non_retryable() {
    let clock = MockClock::new();
    let mut calls = 0;
    let result: Result<i32, &str> = retry(|| {
        calls += 1;
        Err("nope")
    })
    .backoff(backoff(5))
    .clock(clock.clone())
    .when(|_e| false)
    .call();

    assert_eq!(result, Err("nope"));
    assert_eq!(calls, 1); // exactly one attempt
    assert!(clock.slept().is_empty());
}

#[test]
fn retry_exhausts_retries() {
    let clock = MockClock::new();
    let result: Result<i32, &str> = retry(|| Err("always"))
        .backoff(backoff(3))
        .clock(clock.clone())
        .call();

    assert_eq!(result, Err("always"));
    assert_eq!(clock.slept().len(), 3); // 3 retries → 3 sleeps, then give up
}

#[test]
fn retry_stops_on_time_budget() {
    let clock = MockClock::new();
    let result: Result<i32, &str> = retry(|| Err("slow"))
        .backoff(backoff(100)) // effectively unlimited retries
        .clock(clock.clone())
        .max_elapsed(secs(10))
        .call();

    assert_eq!(result, Err("slow"));
    // 1 (→1s), 2 (→3s), 4 (→7s); next would be 8 → 7+8=15 ≥ 10 → stop.
    assert_eq!(clock.slept(), vec![secs(1), secs(2), secs(4)]);
}

// --- further cases ---

#[test]
fn default_backoff_sleeps_100_200_400_ms() {
    let clock = MockClock::new();
    let mut calls = 0;
    let result: Result<i32, &str> = retry(|| {
        calls += 1;
        Err("down")
    })
    .clock(clock.clone())
    .call();

    assert_eq!(result, Err("down"));
    assert_eq!(calls, 4); // max_retries + 1 attempts
    assert_eq!(
        clock.slept(),
        vec![
            Duration::from_millis(100),
            Duration::from_millis(200),
            Duration::from_millis(400)
        ]
    );
}

#[test]
fn zero_retries_makes_exactly_one_attempt() {
    let clock = MockClock::new();
    let mut calls = 0;
    let result: Result<i32, &str> = retry(|| {
        calls += 1;
        Err("once")
    })
    .backoff(backoff(0))
    .clock(clock.clone())
    .call();
    assert_eq!(result, Err("once"));
    assert_eq!(calls, 1);
    assert!(clock.slept().is_empty());
}

#[test]
fn retries_transient_but_stops_on_fatal() {
    #[derive(Debug, PartialEq)]
    enum ApiError {
        Transient,
        Fatal,
    }
    let clock = MockClock::new();
    let mut calls = 0;
    let out: Result<i32, ApiError> = retry(|| {
        calls += 1;
        if calls <= 2 { Err(ApiError::Transient) } else { Err(ApiError::Fatal) }
    })
    .backoff(backoff(10))
    .clock(clock.clone())
    .when(|e| matches!(e, ApiError::Transient))
    .call();

    assert_eq!(out, Err(ApiError::Fatal));
    assert_eq!(calls, 3);
    assert_eq!(clock.slept(), vec![secs(1), secs(2)]);
}

#[test]
fn budget_exactly_reached_stops() {
    // 1 s elapsed after the first sleep; the next delay of 2 s would reach 3 s == budget.
    let clock = MockClock::new();
    let result: Result<i32, &str> = retry(|| Err("x"))
        .backoff(backoff(10))
        .clock(clock.clone())
        .max_elapsed(secs(3))
        .call();
    assert_eq!(result, Err("x"));
    assert_eq!(clock.slept(), vec![secs(1)]);
}

#[test]
fn builder_order_does_not_matter() {
    let clock = MockClock::new();
    let result: Result<i32, &str> = retry(|| Err("slow"))
        .max_elapsed(secs(10))
        .clock(clock.clone())
        .backoff(backoff(100))
        .call();
    assert_eq!(result, Err("slow"));
    assert_eq!(clock.slept(), vec![secs(1), secs(2), secs(4)]);
}

#[test]
fn thousands_of_retries() {
    let clock = MockClock::new();
    let big = ExponentialBackoff::new(ExponentialBackoffConfig {
        factor: 1,
        base: Duration::from_nanos(1),
        max_retries: 5000,
        max_delay: Duration::from_nanos(1),
    })
    .unwrap();
    let result: Result<i32, &str> = retry(|| Err("always")).backoff(big).clock(clock.clone()).call();
    assert_eq!(result, Err("always"));
    assert_eq!(clock.slept().len(), 5000);
}

#[test]
fn call_with_reports_each_retry_before_its_sleep() {
    let clock = MockClock::new();
    let mut seen: Vec<(u32, &str, Duration)> = Vec::new();
    let mut n = 0;
    let result: Result<i32, &str> = retry(|| {
        n += 1;
        if n < 3 { Err("boom") } else { Ok(42) }
    })
    .backoff(backoff(5))
    .clock(clock.clone())
    .call_with(|attempt, error: &&str, delay| seen.push((attempt, *error, delay)));
    assert_eq!(result, Ok(42));
    assert_eq!(seen, vec![(1, "boom", secs(1)), (2, "boom", secs(2))]);
    assert_eq!(clock.slept(), vec![secs(1), secs(2)]);
}
