//! A synchronous time source for [blocking retry](super).

use crate::time::instant_saturating_duration_since;
use std::time::{Duration, Instant};
use vstd::prelude::*;

verus! {

/// A synchronous time source: read "now", and block for a duration.
///
/// Injected so tests can supply a mock that advances a *virtual* clock and returns from
/// `sleep` instantly. Open on purpose: implement it for a mock or a simulation runtime.
///
/// This is the blocking counterpart of the async [`Clock`](crate::clock::Clock) trait; the two
/// are separate because the async one's `sleep` returns a `Future` and this one just blocks.
pub trait Clock {
    /// The current instant.
    fn now(&self) -> Instant;

    /// Block the current thread for `dur`.
    fn sleep(&self, dur: Duration);
}

/// How long it has been since `start` by `clock`: its reading now, less `start` (zero if
/// `start` is later).
pub fn elapsed_since<C: Clock>(clock: &C, start: Instant) -> Duration {
    instant_saturating_duration_since(clock.now(), start)
}

/// The elapsed times a run may decide on: what [`elapsed_since`] returns for `clock` and the
/// instant `start` that the run read before its first attempt.
pub open spec fn clock_reports<C: Clock>(clock: C, start: Instant) -> spec_fn(Duration) -> bool {
    |spent: Duration| call_ensures(elapsed_since::<C>, (&clock, start), spent)
}

} // verus!
