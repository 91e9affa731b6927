//! Retry a fallible async operation, backing off between attempts.
//!
//! [`retry()`] builds a [`Retry`] with the defaults, and the builder methods override them.
//! Every failed attempt is judged by [`after_attempt`](crate::shared::after_attempt), the same
//! step the blocking driver takes; the future that awaits the attempts and the delays in turn
//! takes the parts back with [`into_parts`](Retry::into_parts).

use crate::backoff::{default_state, ExponentialBackoff};
use crate::shared::{retries_every_error, retry_any};
use std::future::Future;
use std::time::Duration;
use vstd::prelude::*;

verus! {

/// A configurable retry operation.
///
/// Create it with [`retry`], tune it with the builder methods
/// ([`backoff`](Retry::backoff), [`clock`](Retry::clock), [`when`](Retry::when),
/// [`max_elapsed`](Retry::max_elapsed)), then drive it as a future.
#[must_use]
pub struct Retry<F, B, C, P> {
    op: F,
    backoff: B,
    clock: C,
    retry_if: P,
    max_elapsed: Option<Duration>,
}

impl<F, B, C, P> Retry<F, B, C, P> {
    /// The operation to run.
    pub closed spec fn operation(&self) -> F {
        self.op
    }

    /// The backoff that spaces the attempts.
    pub closed spec fn backoff_policy(&self) -> B {
        self.backoff
    }

    /// The clock that is read and slept on.
    pub closed spec fn time_source(&self) -> C {
        self.clock
    }

    /// The predicate that says which errors are worth retrying.
    pub closed spec fn retry_predicate(&self) -> P {
        self.retry_if
    }

    /// The total time budget, if any.
    pub closed spec fn budget(&self) -> Option<Duration> {
        self.max_elapsed
    }

    /// Override the backoff strategy (any [`Backoff`](crate::backoff::Backoff)).
    pub fn backoff<B2>(self, backoff: B2) -> (r: Retry<F, B2, C, P>)
        ensures
            r.backoff_policy() == backoff,
            r.operation() == self.operation(),
            r.time_source() == self.time_source(),
            r.retry_predicate() == self.retry_predicate(),
            r.budget() == self.budget(),
    {
        Retry {
            backoff,
            op: self.op,
            retry_if: self.retry_if,
            clock: self.clock,
            max_elapsed: self.max_elapsed,
        }
    }

    /// Override the clock (any [`Clock`](crate::clock::Clock)), e.g. a mock clock in tests.
    pub fn clock<C2>(self, clock: C2) -> (r: Retry<F, B, C2, P>)
        ensures
            r.time_source() == clock,
            r.operation() == self.operation(),
            r.backoff_policy() == self.backoff_policy(),
            r.retry_predicate() == self.retry_predicate(),
            r.budget() == self.budget(),
    {
        Retry {
            clock,
            op: self.op,
            backoff: self.backoff,
            retry_if: self.retry_if,
            max_elapsed: self.max_elapsed,
        }
    }

    /// Give up once this much total time has elapsed (default: no limit).
    pub fn max_elapsed(self, budget: Duration) -> (r: Self)
        ensures
            r.budget() == Some(budget),
            r.operation() == self.operation(),
            r.backoff_policy() == self.backoff_policy(),
            r.time_source() == self.time_source(),
            r.retry_predicate() == self.retry_predicate(),
    {
        let mut this = self;
        this.max_elapsed = Some(budget);
        this
    }

    /// The parts, for the driver that runs them: the operation, the backoff, the clock, the
    /// predicate and the budget.
    pub fn into_parts(self) -> (r: (F, B, C, P, Option<Duration>))
        ensures
            r == (self.operation(), self.backoff_policy(), self.time_source(), self.retry_predicate(), self.budget()),
    {
        (self.op, self.backoff, self.clock, self.retry_if, self.max_elapsed)
    }
}

/// Start retrying `op`, with sensible defaults for the rest: exponential backoff,
/// retry-on-any-error, and no time budget. The clock is chosen with [`clock`](Retry::clock).
pub fn retry<F, Fut, T, E>(op: F) -> (r: Retry<F, ExponentialBackoff, (), impl Fn(&E) -> bool>)
    where F: FnMut() -> Fut, Fut: Future<Output = Result<T, E>>,
    ensures
        r.operation() == op,
        r.backoff_policy()@ == default_state(),
        retries_every_error(r.retry_predicate()),
        r.budget() is None,
{
    let r = Retry {
        op,
        backoff: ExponentialBackoff::default(),
        clock: (),
        retry_if: retry_any::<E>,
        max_elapsed: None,
    };
    assert forall|e: &E, b: bool| #[trigger] r.retry_predicate().ensures((e,), b) implies b by {
        assert(retry_any::<E>.ensures((e,), b));
    }
    r
}

impl<F, Fut, T, E, B, C, P> Retry<F, B, C, P> where F: FnMut() -> Fut, Fut: Future<Output = Result<T, E>> {
    /// Only retry errors for which `predicate` returns `true` (default: retry all).
    pub fn when<P2>(self, predicate: P2) -> (r: Retry<F, B, C, P2>)
        where P2: Fn(&E) -> bool,
        ensures
            r.retry_predicate() == predicate,
            r.operation() == self.operation(),
            r.backoff_policy() == self.backoff_policy(),
            r.time_source() == self.time_source(),
            r.budget() == self.budget(),
    {
        Retry {
            retry_if: predicate,
            op: self.op,
            backoff: self.backoff,
            clock: self.clock,
            max_elapsed: self.max_elapsed,
        }
    }
}

} // verus!
