//! # mettle
//!
//! A resilience toolkit: composable, testable primitives for handling failure, so retry-and-backoff
//! logic is not hand-rolled in every project.
//!
//! - [`backoff`]: the [`Backoff`] trait and [`ExponentialBackoff`], a validated, deterministic,
//!   saturating exponential sequence of delays.
//! - [`shared`]: the retry decision taken after every failed attempt.
//! - [`blocking`]: a synchronous retry driver over an injected [`blocking::Clock`].
//! - [`retry`] and [`clock`]: the async retry builder and its [`Clock`].
//! - [`time`]: how durations are measured in the contracts.

pub mod backoff;
pub mod blocking;
pub mod clock;
pub mod retry;
pub mod shared;
pub mod time;

pub use backoff::{Backoff, BackoffConfigError, ExponentialBackoff, ExponentialBackoffConfig};
pub use clock::Clock;
pub use retry::retry;
