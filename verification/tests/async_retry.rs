use mettle::retry;
use mettle::{Backoff, ExponentialBackoff, ExponentialBackoffConfig};
use std::time::Duration;

async fn op() -> Result<i32, &'static str> {
    Ok(1)
}

#[test]
fn builder_keeps_every_part() {
    let b = ExponentialBackoff::new(ExponentialBackoffConfig {
        factor: 3,
        base: Duration::from_secs(2),
        max_retries: 4,
        max_delay: Duration::from_secs(60),
    })
    .unwrap();
    let (_op, mut backoff, _clock, pred, budget) = retry(op)
        .backoff(b)
        .max_elapsed(Duration::from_secs(9))
        .when(|e: &&str| *e == "transient")
        .into_parts();
    assert_eq!(backoff.next_delay(), Some(Duration::from_secs(2)));
    assert_eq!(backoff.next_delay(), Some(Duration::from_secs(6)));
    assert!(pred(&"transient"));
    assert!(!pred(&"fatal"));
    assert_eq!(budget, Some(Duration::from_secs(9)));
}

#[test]
fn defaults_retry_every_error_with_no_budget() {
    let (_op, mut backoff, _clock, pred, budget) = retry(op).into_parts();
    assert!(pred(&"anything"));
    assert_eq!(budget, None);
    assert_eq!(backoff.next_delay(), Some(Duration::from_millis(100)));
}

#[test]
fn clock_is_the_one_chosen() {
    let (_op, _backoff, clock, _pred, _budget) = retry(op).clock(7u8).into_parts();
    assert_eq!(clock, 7u8);
    let (_op, _backoff, clock, _pred, _budget) = retry(op).into_parts();
    assert_eq!(clock, ());
}
