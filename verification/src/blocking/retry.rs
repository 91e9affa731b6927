//! The blocking retry builder and its `call` driver.

use super::clock::{clock_reports, elapsed_since, Clock};
use crate::backoff::{default_state, Backoff, ExponentialBackoff};
use crate::shared::{
    after_attempt, is_run, lemma_verdict_widen, reports, retried, retries_every_error,
    retry_any, AfterAttempt,
};
use std::time::{Duration, Instant};
use vstd::prelude::*;

verus! {

/// A configurable blocking retry operation.
///
/// Create it with [`retry`], tune it with the builder methods
/// ([`backoff`](Retry::backoff), [`clock`](Retry::clock), [`when`](Retry::when),
/// [`max_elapsed`](Retry::max_elapsed)), then run it with [`call`](Retry::call).
#[must_use]
pub struct Retry<F, B, C, P> {
    op: F,
    backoff: B,
    clock: C,
    retry_if: P,
    max_elapsed: Option<Duration>,
}

impl<F, B, C, P> Retry<F, B, C, P> {
    /// The operation to run.
    pub closed spec fn operation(&self) -> F {
        self.op
    }

    /// The backoff that spaces the attempts.
    pub closed spec fn backoff_policy(&self) -> B {
        self.backoff
    }

    /// The clock that is read and slept on.
    pub closed spec fn time_source(&self) -> C {
        self.clock
    }

    /// The predicate that says which errors are worth retrying.
    pub closed spec fn retry_predicate(&self) -> P {
        self.retry_if
    }

    /// The total time budget, if any.
    pub closed spec fn budget(&self) -> Option<Duration> {
        self.max_elapsed
    }

    /// Override the backoff strategy (any [`Backoff`]).
    pub fn backoff<B2>(self, backoff: B2) -> (r: Retry<F, B2, C, P>)
        ensures
            r.backoff_policy() == backoff,
            r.operation() == self.operation(),
            r.time_source() == self.time_source(),
            r.retry_predicate() == self.retry_predicate(),
            r.budget() == self.budget(),
    {
        Retry {
            backoff,
            op: self.op,
            retry_if: self.retry_if,
            clock: self.clock,
            max_elapsed: self.max_elapsed,
        }
    }

    /// Override the clock (any [`Clock`]), e.g. a mock clock in tests.
    pub fn clock<C2>(self, clock: C2) -> (r: Retry<F, B, C2, P>)
        ensures
            r.time_source() == clock,
            r.operation() == self.operation(),
            r.backoff_policy() == self.backoff_policy(),
            r.retry_predicate() == self.retry_predicate(),
            r.budget() == self.budget(),
    {
        Retry {
            clock,
            op: self.op,
            backoff: self.backoff,
            retry_if: self.retry_if,
            max_elapsed: self.max_elapsed,
        }
    }

    /// Give up once this much total time has elapsed (default: no limit).
    pub fn max_elapsed(self, budget: Duration) -> (r: Self)
        ensures
            r.budget() == Some(budget),
            r.operation() == self.operation(),
            r.backoff_policy() == self.backoff_policy(),
            r.time_source() == self.time_source(),
            r.retry_predicate() == self.retry_predicate(),
    {
        let mut this = self;
        this.max_elapsed = Some(budget);
        this
    }

    /// The parts, for a driver of its own: the operation, the backoff, the clock, the
    /// predicate and the budget.
    pub fn into_parts(self) -> (r: (F, B, C, P, Option<Duration>))
        ensures
            r == (self.operation(), self.backoff_policy(), self.time_source(), self.retry_predicate(), self.budget()),
    {
        (self.op, self.backoff, self.clock, self.retry_if, self.max_elapsed)
    }
}

/// Start retrying `op`, with sensible defaults for the rest: exponential backoff,
/// retry-on-any-error, and no time budget. The clock is chosen with [`clock`](Retry::clock)
/// before [`call`](Retry::call).
pub fn retry<F, T, E>(op: F) -> (r: Retry<F, ExponentialBackoff, (), impl Fn(&E) -> bool>)
    where F: FnMut() -> Result<T, E>,
    ensures
        r.operation() == op,
        r.backoff_policy()@ == default_state(),
        retries_every_error(r.retry_predicate()),
        r.budget() is None,
{
    let r = Retry {
        op,
        backoff: ExponentialBackoff::default(),
        clock: (),
        retry_if: retry_any::<E>,
        max_elapsed: None,
    };
    assert forall|e: &E, b: bool| #[trigger] r.retry_predicate().ensures((e,), b) implies b by {
        assert(retry_any::<E>.ensures((e,), b));
    }
    r
}

impl<F, T, E, B, C, P> Retry<F, B, C, P> where F: FnMut() -> Result<T, E> {
    /// Only retry errors for which `predicate` returns `true` (default: retry all).
    pub fn when<P2>(self, predicate: P2) -> (r: Retry<F, B, C, P2>)
        where P2: Fn(&E) -> bool,
        ensures
            r.retry_predicate() == predicate,
            r.operation() == self.operation(),
            r.backoff_policy() == self.backoff_policy(),
            r.time_source() == self.time_source(),
            r.budget() == self.budget(),
    {
        Retry {
            retry_if: predicate,
            op: self.op,
            backoff: self.backoff,
            clock: self.clock,
            max_elapsed: self.max_elapsed,
        }
    }
}

impl<F, T, E, B, C, P> Retry<F, B, C, P> where
    F: FnMut() -> Result<T, E>,
    B: Backoff,
    C: Clock,
    P: Fn(&E) -> bool,
 {
    /// Run the operation, blocking between attempts, until it succeeds or gives up.
    ///
    /// The run is an [`is_run`]: attempts and sleeps alternate, every error but the last was
    /// retried by the [`retry_verdict`] with the delay that the chosen backoff handed out, the
    /// backoff is stepped only on retryable errors, and the result is the last attempt's outcome.
    /// Under a budget, each decision uses the time elapsed on the chosen clock since one instant
    /// `start`, as [`elapsed_since`] reads it at that decision.
    pub fn call(self) -> (r: Result<T, E>)
        requires
            forall|op: F| #[trigger] op.requires(()),
            forall|e: &E| #[trigger] self.retry_predicate().requires((e,)),
        ensures
            exists|start: Instant, outcomes: Seq<Result<T, E>>, delays: Seq<Duration>, backoffs: Seq<B>| {
                &&& backoffs[0] == self.backoff_policy()
                &&& #[trigger] is_run(
                    self.operation(),
                    self.retry_predicate(),
                    self.budget(),
                    clock_reports(self.time_source(), start),
                    outcomes,
                    delays,
                    backoffs,
                    r,
                )
            },
    {
        self.call_with(|_attempt: u32, _error: &E, _delay: Duration| {})
    }

    /// [`call`](Retry::call), telling `on_retry` of every retry before its sleep: the 1-based
    /// number of the attempt that failed, its error, and the delay about to be slept.
    pub fn call_with<R: FnMut(u32, &E, Duration)>(self, on_retry: R) -> (r: Result<T, E>)
        requires
            forall|op: F| #[trigger] op.requires(()),
            forall|e: &E| #[trigger] self.retry_predicate().requires((e,)),
            forall|attempt: u32, e: &E, delay: Duration| #[trigger] on_retry.requires((attempt, e, delay)),
        ensures
            exists|start: Instant, outcomes: Seq<Result<T, E>>, delays: Seq<Duration>, backoffs: Seq<B>| {
                &&& backoffs[0] == self.backoff_policy()
                &&& #[trigger] is_run(
                    self.operation(),
                    self.retry_predicate(),
                    self.budget(),
                    clock_reports(self.time_source(), start),
                    outcomes,
                    delays,
                    backoffs,
                    r,
                )
            },
    {
        let ghost op0 = self.operation();
        let ghost b0 = self.backoff_policy();
        let Retry { mut op, mut backoff, clock, retry_if, max_elapsed } = self;
        let mut on_retry = on_retry;
        assert forall|e: &E| #[trigger] retry_if.requires((e,)) by {
            assert(self.retry_predicate().requires((e,)));
        }
        let mut attempt: u32 = 0;
        let ghost mut outcomes: Seq<Result<T, E>> = Seq::empty();
        let ghost mut delays: Seq<Duration> = Seq::empty();
        let ghost mut backoffs: Seq<B> = seq![b0];
        let start = clock.now();
        loop
            invariant
                forall|g: F| #[trigger] g.requires(()),
                forall|e: &E| #[trigger] retry_if.requires((e,)),
                forall|a: u32, e: &E, d: Duration| #[trigger] on_retry.requires((a, e, d)),
                retry_if == self.retry_predicate(),
                max_elapsed == self.budget(),
                clock == self.time_source(),
                op == op0,
                op0 == self.operation(),
                b0 == self.backoff_policy(),
                outcomes.len() == attempt,
                delays.len() == attempt,
                backoffs.len() == attempt + 1,
                backoffs[0] == b0,
                backoffs[attempt as int] == backoff,
                forall|i: int| 0 <= i < attempt ==> call_ensures(op0, (), #[trigger] outcomes[i]),
                forall|i: int|
                    0 <= i < attempt ==> retried(retry_if, max_elapsed, clock_reports(clock, start), #[trigger] outcomes[i], backoffs[i], backoffs[i + 1], delays[i]),
            decreases u32::MAX - attempt,
        {
            let outcome = op();
            let ghost out = outcome;
            let ghost b_before = backoff;
            let ghost attempt_before = attempt;
            let elapsed = || -> (spent: Duration)
                ensures
                    call_ensures(elapsed_since::<C>, (&clock, start), spent),
                {
                    let read = elapsed_since::<C>;
                    read(&clock, start)
                };
            let step = after_attempt(outcome, &retry_if, &mut backoff, max_elapsed, &mut attempt, elapsed);
            proof {
                if out is Err && attempt_before < u32::MAX {
                    assert forall|spent: Duration| #[trigger] reports(elapsed)(spent) implies clock_reports(
                        clock,
                        start,
                    )(spent) by {}
                    lemma_verdict_widen(
                        &out->Err_0,
                        retry_if,
                        b_before,
                        backoff,
                        max_elapsed,
                        reports(elapsed),
                        clock_reports(clock, start),
                        step.granted(),
                    );
                }
                outcomes = outcomes.push(out);
                backoffs = backoffs.push(backoff);
            }
            match step {
                AfterAttempt::Finish(result) => {
                    proof {
                        assert(is_run(
                            self.operation(),
                            self.retry_predicate(),
                            self.budget(),
                            clock_reports(self.time_source(), start),
                            outcomes,
                            delays,
                            backoffs,
                            result,
                        ));
                        assert(backoffs[0] == self.backoff_policy());
                    }
                    return result;
                },
                AfterAttempt::Wait { delay, error } => {
                    proof {
                        delays = delays.push(delay);
                    }
                    on_retry(attempt, &error, delay);
                    clock.sleep(delay);
                },
            }
        }
    }
}

} // verus!
