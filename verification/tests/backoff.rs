use mettle::{Backoff, BackoffConfigError, ExponentialBackoff, ExponentialBackoffConfig};
use std::time::Duration;

fn secs(n: u64) -> Duration {
    Duration::from_secs(n)
}

fn exp(base: u64, factor: u32, max_delay: u64, max_retries: u32) -> ExponentialBackoff {
    ExponentialBackoff::new(ExponentialBackoffConfig {
        factor,
        base: secs(base),
        max_retries,
        max_delay: secs(max_delay),
    })
    .unwrap()
}

#[test]
fn grows_exponentially_then_gives_up() {
    let mut b = exp(1, 2, 100, 5);
    assert_eq!(b.next_delay(), Some(secs(1)));
    assert_eq!(b.next_delay(), Some(secs(2)));
    assert_eq!(b.next_delay(), Some(secs(4)));
    assert_eq!(b.next_delay(), Some(secs(8)));
    assert_eq!(b.next_delay(), Some(secs(16)));
    assert_eq!(b.next_delay(), None); // 5 retries used up
}

#[test]
fn delay_is_capped_at_max() {
    let mut b = exp(10, 10, 30, 4);
    assert_eq!(b.next_delay(), Some(secs(10)));
    assert_eq!(b.next_delay(), Some(secs(30))); // 100 → capped to 30
    assert_eq!(b.next_delay(), Some(secs(30))); // stays capped
}

#[test]
fn zero_retries_means_one_attempt() {
    let mut b = exp(1, 2, 100, 0);
    assert_eq!(b.next_delay(), None); // no retries — caller makes exactly one attempt
}

#[test]
fn huge_factor_does_not_panic() {
    let mut b = ExponentialBackoff::new(ExponentialBackoffConfig {
        factor: u32::MAX,
        base: Duration::from_secs(u64::MAX / 2),
        max_retries: 3,
        max_delay: Duration::MAX,
    })
    .unwrap();
    let _ = b.next_delay(); // saturating_mul must not overflow-panic
    let _ = b.next_delay();
}

#[test]
fn rejects_degenerate_configs() {
    // Each config is valid except the one field under test (defaults fill the rest).
    assert!(matches!(
        ExponentialBackoff::new(ExponentialBackoffConfig {
            base: secs(0),
            ..Default::default()
        }),
        Err(BackoffConfigError::ZeroBase)
    ));
    assert!(matches!(
        ExponentialBackoff::new(ExponentialBackoffConfig {
            factor: 0,
            ..Default::default()
        }),
        Err(BackoffConfigError::ZeroFactor)
    ));
    assert!(matches!(
        ExponentialBackoff::new(ExponentialBackoffConfig {
            base: secs(10),
            max_delay: secs(5),
            ..Default::default()
        }),
        Err(BackoffConfigError::MaxDelayBelowBase)
    ));
}

// --- further cases ---

#[test]
fn default_config_values() {
    let c = ExponentialBackoffConfig::default();
    assert_eq!(c.factor, 2);
    assert_eq!(c.base, Duration::from_millis(100));
    assert_eq!(c.max_retries, 3);
    assert_eq!(c.max_delay, secs(30));
}

#[test]
fn default_backoff_doubles_from_100ms_three_times() {
    let mut b = ExponentialBackoff::default();
    assert_eq!(b.next_delay(), Some(Duration::from_millis(100)));
    assert_eq!(b.next_delay(), Some(Duration::from_millis(200)));
    assert_eq!(b.next_delay(), Some(Duration::from_millis(400)));
    assert_eq!(b.next_delay(), None);
}

#[test]
fn exhausted_backoff_stays_exhausted() {
    let mut b = exp(1, 2, 100, 1);
    assert_eq!(b.next_delay(), Some(secs(1)));
    for _ in 0..10 {
        assert_eq!(b.next_delay(), None);
    }
}

#[test]
fn same_config_yields_same_sequence() {
    let mut a = exp(3, 3, 50, 6);
    let mut b = a.clone();
    let mut c = exp(3, 3, 50, 6);
    for _ in 0..8 {
        let d = a.next_delay();
        assert_eq!(d, b.next_delay());
        assert_eq!(d, c.next_delay());
    }
}

#[test]
fn clone_continues_from_the_same_point() {
    let mut a = exp(1, 2, 100, 4);
    assert_eq!(a.next_delay(), Some(secs(1)));
    let mut b = a.clone();
    assert_eq!(a.next_delay(), Some(secs(2)));
    assert_eq!(b.next_delay(), Some(secs(2)));
    assert_eq!(b.next_delay(), Some(secs(4)));
}

#[test]
fn factor_one_keeps_the_base() {
    let mut b = exp(7, 1, 100, 3);
    assert_eq!(b.next_delay(), Some(secs(7)));
    assert_eq!(b.next_delay(), Some(secs(7)));
    assert_eq!(b.next_delay(), Some(secs(7)));
    assert_eq!(b.next_delay(), None);
}

#[test]
fn growth_saturates_at_the_cap_of_duration_max() {
    let mut b = ExponentialBackoff::new(ExponentialBackoffConfig {
        factor: u32::MAX,
        base: Duration::from_secs(u64::MAX / 2),
        max_retries: 3,
        max_delay: Duration::MAX,
    })
    .unwrap();
    assert_eq!(b.next_delay(), Some(Duration::from_secs(u64::MAX / 2)));
    assert_eq!(b.next_delay(), Some(Duration::MAX));
    assert_eq!(b.next_delay(), Some(Duration::MAX));
    assert_eq!(b.next_delay(), None);
}

#[test]
fn max_delay_equal_to_base_is_accepted() {
    let mut b = exp(5, 4, 5, 2);
    assert_eq!(b.next_delay(), Some(secs(5)));
    assert_eq!(b.next_delay(), Some(secs(5)));
    assert_eq!(b.next_delay(), None);
}

#[test]
fn zero_base_is_reported_before_zero_factor() {
    let r = ExponentialBackoff::new(ExponentialBackoffConfig {
        factor: 0,
        base: secs(0),
        max_retries: 1,
        max_delay: secs(0),
    });
    assert_eq!(r.err(), Some(BackoffConfigError::ZeroBase));
    let r = ExponentialBackoff::new(ExponentialBackoffConfig {
        factor: 0,
        base: secs(10),
        max_retries: 1,
        max_delay: secs(1),
    });
    assert_eq!(r.err(), Some(BackoffConfigError::ZeroFactor));
}

#[test]
fn sub_second_delays_keep_their_nanoseconds() {
    let mut b = ExponentialBackoff::new(ExponentialBackoffConfig {
        factor: 3,
        base: Duration::from_nanos(1_500_000_001),
        max_retries: 2,
        max_delay: secs(4),
    })
    .unwrap();
    assert_eq!(b.next_delay(), Some(Duration::from_nanos(1_500_000_001)));
    assert_eq!(b.next_delay(), Some(secs(4))); // 4.500000003 s, capped
}

#[test]
fn error_messages() {
    assert_eq!(BackoffConfigError::ZeroBase.message(), "backoff `base` must be non-zero");
    assert_eq!(BackoffConfigError::ZeroFactor.message(), "backoff `factor` must be at least 1");
    assert_eq!(
        BackoffConfigError::MaxDelayBelowBase.message(),
        "backoff `max_delay` must be >= `base`"
    );
}

#[test]
fn config_clone_is_equal() {
    let c = ExponentialBackoffConfig { max_retries: 8, ..Default::default() };
    let d = c.clone();
    assert_eq!(d.factor, c.factor);
    assert_eq!(d.base, c.base);
    assert_eq!(d.max_retries, 8);
    assert_eq!(d.max_delay, c.max_delay);
}
