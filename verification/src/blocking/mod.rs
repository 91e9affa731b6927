//! Blocking (synchronous) retry: the sync twin of the async `retry`, without async.
//!
//! Wrap your operation with [`retry()`], choose a [`Clock`] with [`clock`](Retry::clock), and run
//! it with [`call`](Retry::call). The backoff strategies and the retry decision are shared with
//! the async API; only the driver differs: a plain loop that blocks through the clock instead of
//! a future.

pub mod clock;
pub mod retry;

pub use clock::{clock_reports, elapsed_since, Clock};
pub use retry::{retry, Retry};
