# mettle

A resilience toolkit: retry a fallible operation, backing off between attempts, with the
backoff arithmetic and the retry decision verified.

- `src/backoff.rs`: the `Backoff` trait and `ExponentialBackoff`, with its model
  (`BackoffState`, `advance`, `nth_delay`) and the laws of the delay sequence.
- `src/shared.rs`: the decision after a failed attempt (`should_retry_after`, `after_attempt`),
  shared by both drivers, what a whole run is (`is_run`), and the laws of runs.
- `src/blocking/`: the blocking `Retry` builder and its `call` loop over an injected `Clock`.
- `src/retry.rs`, `src/clock.rs`: the async `Retry` builder and the async `Clock`.
- `src/time.rs`: how `Duration` is measured in the contracts (nanoseconds), and the std calls
  on durations and instants that the library makes.
- `app/lib.rs`: the effects: the std clock that sleeps the thread, the Tokio clock, the future
  that drives an async retry, and the `tracing` event emitted on every retry.
