//! Retry internals shared by the async and blocking drivers: the decision of whether to keep
//! going after a failed attempt. Kept in one place so both drivers decide the same way.

use crate::backoff::{
    advance, advance_n, default_state, delay_of, lemma_advance_n_counts, state_valid, Backoff,
    ExponentialBackoff,
};
use crate::time::{duration_ge, duration_saturating_add, max_nanos, nanos_of, saturate};
use std::time::Duration;
use vstd::prelude::*;

verus! {

/// A predicate that may be asked about any error and accepts every one: the default of both
/// drivers, which retry on any error.
pub open spec fn retries_every_error<E, P: Fn(&E) -> bool>(p: P) -> bool {
    &&& forall|e: &E| #[trigger] p.requires((e,))
    &&& forall|e: &E, b: bool| #[trigger] p.ensures((e,), b) ==> b
}

/// The default predicate: every error is worth retrying.
pub fn retry_any<E>(_err: &E) -> (r: bool)
    ensures
        r,
{
    true
}

/// Whether waiting `delay` more, after `elapsed` has already passed, stays strictly inside the
/// time budget (the sum saturating at `Duration::MAX`).
pub open spec fn fits_budget(elapsed: Duration, delay: Duration, budget: Duration) -> bool {
    saturate(nanos_of(elapsed) as nat + nanos_of(delay) as nat) < nanos_of(budget)
}

/// The budget check in plain lengths: for a budget that a `Duration` can hold, waiting `delay`
/// after `elapsed` fits exactly when the two together, in nanoseconds, come to less than the
/// budget. So 0 ns and 100 ms fit in 800 ms, while 2.5 s and 0.7 s do not fit in 3 s.
pub proof fn lemma_budget_is_exact(elapsed: Duration, delay: Duration, budget: Duration)
    requires
        nanos_of(budget) <= max_nanos(),
    ensures
        fits_budget(elapsed, delay, budget) <==> nanos_of(elapsed) + nanos_of(delay) < nanos_of(budget),
{
}

/// The budget check never lets a longer wait, a later moment or a smaller budget through where
/// a shorter wait, an earlier moment or a larger budget was refused.
pub proof fn lemma_budget_is_monotone(
    elapsed: Duration,
    delay: Duration,
    budget: Duration,
    elapsed2: Duration,
    delay2: Duration,
    budget2: Duration,
)
    requires
        fits_budget(elapsed2, delay2, budget2),
        nanos_of(elapsed) <= nanos_of(elapsed2),
        nanos_of(delay) <= nanos_of(delay2),
        nanos_of(budget2) <= nanos_of(budget),
    ensures
        fits_budget(elapsed, delay, budget),
{
}

/// Whether another wait of `delay`, after `elapsed`, stays inside `budget`: false once
/// `elapsed + delay` reaches the budget.
pub fn within_budget(elapsed: Duration, delay: Duration, budget: Duration) -> (r: bool)
    ensures
        r == fits_budget(elapsed, delay, budget),
        nanos_of(budget) <= max_nanos() ==> (r <==> nanos_of(elapsed) + nanos_of(delay) < nanos_of(budget)),
{
    proof {
        if nanos_of(budget) <= max_nanos() {
            lemma_budget_is_exact(elapsed, delay, budget);
        }
    }
    !duration_ge(&duration_saturating_add(elapsed, delay), &budget)
}

/// The elapsed times a clock thunk may report: those its `ensures` allows.
pub open spec fn reports<G: FnOnce() -> Duration>(elapsed: G) -> spec_fn(Duration) -> bool {
    |spent: Duration| call_ensures(elapsed, (), spent)
}

/// Any elapsed time at all: what an opaque clock may report.
pub open spec fn any_elapsed() -> spec_fn(Duration) -> bool {
    |spent: Duration| true
}

/// What the retry decision returns once the predicate has accepted the error and the backoff
/// has handed out `next`: nothing when the backoff gave up; the delay when there is no budget;
/// under a budget, the delay exactly when it fits after an elapsed time the clock may report
/// (one of `reported`).
pub open spec fn verdict_after(
    next: Option<Duration>,
    max_elapsed: Option<Duration>,
    reported: spec_fn(Duration) -> bool,
    r: Option<Duration>,
) -> bool {
    match next {
        None => r is None,
        Some(d) => match max_elapsed {
            None => r == Some(d),
            Some(budget) => exists|spent: Duration|
                #[trigger] reported(spent) && r == (if fits_budget(spent, d, budget) {
                    Some(d)
                } else {
                    None::<Duration>
                }),
        },
    }
}

/// The retry decision on `err`, taking the backoff from `before` to `after` and returning `r`:
/// the predicate answered `accepted`; a rejected error gives `None` and leaves the backoff as it
/// was; an accepted one makes the backoff take one step that hands out some `next`, and `r` is
/// what [`verdict_after`] gives for it.
pub open spec fn retry_verdict<E, P: Fn(&E) -> bool, B: Backoff>(
    err: &E,
    retryable: P,
    before: B,
    after: B,
    max_elapsed: Option<Duration>,
    reported: spec_fn(Duration) -> bool,
    r: Option<Duration>,
) -> bool {
    exists|accepted: bool| #[trigger] call_ensures(retryable, (err,), accepted) && if accepted {
        exists|next: Option<Duration>|
            #[trigger] before.next_delay_step(&after, next) && verdict_after(next, max_elapsed, reported, r)
    } else {
        &&& r is None
        &&& after == before
    }
}

/// A verdict reached with the elapsed times in `reported` is also reached with any wider set of
/// them.
pub proof fn lemma_verdict_widen<E, P: Fn(&E) -> bool, B: Backoff>(
    err: &E,
    retryable: P,
    before: B,
    after: B,
    max_elapsed: Option<Duration>,
    reported: spec_fn(Duration) -> bool,
    wider: spec_fn(Duration) -> bool,
    r: Option<Duration>,
)
    requires
        retry_verdict(err, retryable, before, after, max_elapsed, reported, r),
        forall|spent: Duration| #[trigger] reported(spent) ==> wider(spent),
    ensures
        retry_verdict(err, retryable, before, after, max_elapsed, wider, r),
{
    let accepted = choose|accepted: bool|
        #[trigger] call_ensures(retryable, (err,), accepted) && if accepted {
            exists|next: Option<Duration>|
                #[trigger] before.next_delay_step(&after, next) && verdict_after(next, max_elapsed, reported, r)
        } else {
            &&& r is None
            &&& after == before
        };
    if accepted {
        let next = choose|next: Option<Duration>|
            #[trigger] before.next_delay_step(&after, next) && verdict_after(next, max_elapsed, reported, r);
        if let (Some(d), Some(budget)) = (next, max_elapsed) {
            let spent = choose|spent: Duration|
                #[trigger] reported(spent) && r == (if fits_budget(spent, d, budget) {
                    Some(d)
                } else {
                    None::<Duration>
                });
            assert(wider(spent));
        }
        assert(verdict_after(next, max_elapsed, wider, r));
    }
}

/// A verdict reached with the times one clock may report is also reached with any time at all.
pub proof fn lemma_verdict_any_elapsed<E, P: Fn(&E) -> bool, B: Backoff>(
    err: &E,
    retryable: P,
    before: B,
    after: B,
    max_elapsed: Option<Duration>,
    reported: spec_fn(Duration) -> bool,
    r: Option<Duration>,
)
    requires
        retry_verdict(err, retryable, before, after, max_elapsed, reported, r),
    ensures
        retry_verdict(err, retryable, before, after, max_elapsed, any_elapsed(), r),
{
    let accepted = choose|accepted: bool|
        #[trigger] call_ensures(retryable, (err,), accepted) && if accepted {
            exists|next: Option<Duration>|
                #[trigger] before.next_delay_step(&after, next) && verdict_after(next, max_elapsed, reported, r)
        } else {
            &&& r is None
            &&& after == before
        };
    if accepted {
        let next = choose|next: Option<Duration>|
            #[trigger] before.next_delay_step(&after, next) && verdict_after(next, max_elapsed, reported, r);
        if let (Some(d), Some(budget)) = (next, max_elapsed) {
            let spent = choose|spent: Duration|
                #[trigger] reported(spent) && r == (if fits_budget(spent, d, budget) {
                    Some(d)
                } else {
                    None::<Duration>
                });
            assert(any_elapsed()(spent));
        }
        assert(verdict_after(next, max_elapsed, any_elapsed(), r));
    }
}

/// The retry decision, shared by both drivers so they can't diverge on semantics.
///
/// After a failed attempt, returns `Some(delay)` to wait `delay` and try again, or `None` to
/// give up (non-retryable error, retries exhausted, or the time budget is spent). `elapsed` is
/// a thunk, so the clock is read only when a budget is actually set: it need not even be
/// callable without one.
///
/// The predicate, the backoff and the clock are the caller's, and the contract states the
/// result for whatever they answer: it is the [`retry_verdict`] on `err`.
pub fn should_retry_after<E, P: Fn(&E) -> bool, B: Backoff, G: FnOnce() -> Duration>(
    err: &E,
    retryable: &P,
    backoff: &mut B,
    max_elapsed: Option<Duration>,
    elapsed: G,
) -> (r: Option<Duration>)
    requires
        retryable.requires((err,)),
        max_elapsed is Some ==> elapsed.requires(()),
    ensures
        retry_verdict(err, *retryable, *old(backoff), *final(backoff), max_elapsed, reports(elapsed), r),
        r matches Some(d) ==> {
            &&& call_ensures(*retryable, (err,), true)
            &&& max_elapsed matches Some(budget) ==> exists|spent: Duration|
                #[trigger] call_ensures(elapsed, (), spent) && fits_budget(spent, d, budget)
        },
        (forall|b: bool| #[trigger] call_ensures(*retryable, (err,), b) ==> !b) ==> {
            &&& r is None
            &&& *final(backoff) == *old(backoff)
        },
{
    let accepted = retryable(err);
    if !accepted {
        return None;  // non-retryable
    }
    let ghost before = *backoff;
    let next = backoff.next_delay();
    assert(before.next_delay_step(backoff, next));
    let delay = match next {
        Some(d) => d,
        None => return None,  // retries exhausted
    };
    match max_elapsed {
        Some(budget) => {
            let spent = elapsed();
            assert(reports(elapsed)(spent));
            if within_budget(spent, delay, budget) {
                Some(delay)
            } else {
                None  // no time for another attempt
            }
        },
        None => Some(delay),
    }
}

/// What a driver does after an attempt has finished.
pub enum AfterAttempt<T, E> {
    /// Stop and hand back this result.
    Finish(Result<T, E>),
    /// Wait `delay`, then try again; `error` is the error of the attempt that failed.
    Wait { delay: Duration, error: E },
}

impl<T, E> AfterAttempt<T, E> {
    /// The delay granted, if the step is a wait.
    pub open spec fn granted(self) -> Option<Duration> {
        match self {
            AfterAttempt::Wait { delay, .. } => Some(delay),
            AfterAttempt::Finish(_) => None,
        }
    }
}

/// The step both drivers take after an attempt: a success ends the run, and a failure is
/// retried or not as [`should_retry_after`] decides. `attempt` counts the retries granted so
/// far; a retry is granted only while it can still be counted in a `u32`.
pub fn after_attempt<T, E, P: Fn(&E) -> bool, B: Backoff, G: FnOnce() -> Duration>(
    outcome: Result<T, E>,
    retryable: &P,
    backoff: &mut B,
    max_elapsed: Option<Duration>,
    attempt: &mut u32,
    elapsed: G,
) -> (r: AfterAttempt<T, E>)
    requires
        forall|e: &E| #[trigger] retryable.requires((e,)),
        max_elapsed is Some ==> elapsed.requires(()),
    ensures
        match outcome {
            Ok(v) => {
                &&& r == AfterAttempt::<T, E>::Finish(Ok(v))
                &&& *final(attempt) == *old(attempt)
                &&& *final(backoff) == *old(backoff)
            },
            Err(e) => {
                &&& *old(attempt) == u32::MAX ==> {
                    &&& r == AfterAttempt::<T, E>::Finish(Err(e))
                    &&& *final(backoff) == *old(backoff)
                }
                &&& *old(attempt) < u32::MAX ==> retry_verdict(
                    &e,
                    *retryable,
                    *old(backoff),
                    *final(backoff),
                    max_elapsed,
                    reports(elapsed),
                    r.granted(),
                )
                &&& match r {
                    AfterAttempt::Finish(res) => {
                        &&& res == Err::<T, E>(e)
                        &&& *final(attempt) == *old(attempt)
                    },
                    AfterAttempt::Wait { delay, error } => {
                        &&& error == e
                        &&& *old(attempt) < u32::MAX
                        &&& *final(attempt) == *old(attempt) + 1
                        &&& call_ensures(*retryable, (&e,), true)
                        &&& max_elapsed matches Some(budget) ==> exists|spent: Duration|
                            #[trigger] call_ensures(elapsed, (), spent) && fits_budget(spent, delay, budget)
                    },
                }
            },
        },
        outcome matches Err(e) && (*old(attempt) == u32::MAX || forall|b: bool|
            #[trigger] call_ensures(*retryable, (&e,), b) ==> !b) ==> r is Finish,
{
    match outcome {
        Ok(value) => AfterAttempt::Finish(Ok(value)),
        Err(err) => {
            if *attempt == u32::MAX {
                return AfterAttempt::Finish(Err(err));
            }
            match should_retry_after(&err, retryable, backoff, max_elapsed, elapsed) {
                Some(delay) => {
                    *attempt = *attempt + 1;
                    AfterAttempt::Wait { delay, error: err }
                },
                None => AfterAttempt::Finish(Err(err)),
            }
        },
    }
}

/// An attempt that was retried: it failed with an error, and the [`retry_verdict`] on that
/// error, with the elapsed times in `reported`, took the backoff from `before` to `after` and
/// granted `delay`.
pub open spec fn retried<T, E, P: Fn(&E) -> bool, B: Backoff>(
    retryable: P,
    max_elapsed: Option<Duration>,
    reported: spec_fn(Duration) -> bool,
    outcome: Result<T, E>,
    before: B,
    after: B,
    delay: Duration,
) -> bool {
    &&& outcome is Err
    &&& retry_verdict(&outcome->Err_0, retryable, before, after, max_elapsed, reported, Some(delay))
}

/// The last attempt of a run, which ended it: a success (the backoff untouched), an error with
/// the retry count already full (the backoff untouched), or an error on which the
/// [`retry_verdict`] took the backoff from `before` to `after` and granted nothing.
pub open spec fn finished<T, E, P: Fn(&E) -> bool, B: Backoff>(
    retryable: P,
    max_elapsed: Option<Duration>,
    reported: spec_fn(Duration) -> bool,
    outcome: Result<T, E>,
    before: B,
    after: B,
    count_full: bool,
) -> bool {
    match outcome {
        Ok(_) => after == before,
        Err(e) => if count_full {
            after == before
        } else {
            retry_verdict(&e, retryable, before, after, max_elapsed, reported, None)
        },
    }
}

/// A whole retry run of `op`: `outcomes` are what the attempts returned in order, `delays[i]`
/// the wait granted after attempt `i` (which the driver hands to its clock), and `backoffs[i]` the backoff before the
/// decision on attempt `i` (`backoffs[n]` after the last). Every attempt but the last was
/// [`retried`], the last [`finished`] the run, and the run's result `r` is the last outcome.
pub open spec fn is_run<T, E, F: FnOnce() -> Result<T, E>, P: Fn(&E) -> bool, B: Backoff>(
    op: F,
    retryable: P,
    max_elapsed: Option<Duration>,
    reported: spec_fn(Duration) -> bool,
    outcomes: Seq<Result<T, E>>,
    delays: Seq<Duration>,
    backoffs: Seq<B>,
    r: Result<T, E>,
) -> bool {
    let n = outcomes.len() as int;
    &&& 1 <= n <= u32::MAX as int + 1
    &&& delays.len() == n - 1
    &&& backoffs.len() == n + 1
    &&& r == outcomes[n - 1]
    &&& forall|i: int| 0 <= i < n ==> call_ensures(op, (), #[trigger] outcomes[i])
    &&& forall|i: int|
        0 <= i < n - 1 ==> retried(retryable, max_elapsed, reported, #[trigger] outcomes[i], backoffs[i], backoffs[i + 1], delays[i])
    &&& finished(retryable, max_elapsed, reported, outcomes[n - 1], backoffs[n - 1], backoffs[n], n - 1 == u32::MAX)
}

// Laws of retry runs.

/// A retried attempt under an exponential backoff: the backoff takes exactly one step of
/// [`advance`], and the delay slept is the one that step hands out.
proof fn lemma_retried_step<T, E, P: Fn(&E) -> bool>(
    retryable: P,
    max_elapsed: Option<Duration>,
    reported: spec_fn(Duration) -> bool,
    outcome: Result<T, E>,
    before: ExponentialBackoff,
    after: ExponentialBackoff,
    delay: Duration,
)
    requires
        retried(retryable, max_elapsed, reported, outcome, before, after, delay),
    ensures
        delay_of(before@) == Some(nanos_of(delay) as nat),
        after@ == advance(before@),
{
    let e = &outcome->Err_0;
    let accepted = choose|accepted: bool|
        #[trigger] call_ensures(retryable, (e,), accepted) && if accepted {
            exists|next: Option<Duration>|
                #[trigger] before.next_delay_step(&after, next) && verdict_after(next, max_elapsed, reported, Some(delay))
        } else {
            &&& Some(delay) is None
            &&& after == before
        };
    let next = choose|next: Option<Duration>|
        #[trigger] before.next_delay_step(&after, next) && verdict_after(next, max_elapsed, reported, Some(delay));
    assert(next == Some(delay));
}

/// The backoffs of a run under an exponential backoff, one step of [`advance`] per retry.
proof fn lemma_run_backoffs<T, E, F: FnOnce() -> Result<T, E>, P: Fn(&E) -> bool>(
    op: F,
    retryable: P,
    max_elapsed: Option<Duration>,
    reported: spec_fn(Duration) -> bool,
    outcomes: Seq<Result<T, E>>,
    delays: Seq<Duration>,
    backoffs: Seq<ExponentialBackoff>,
    r: Result<T, E>,
    k: nat,
)
    requires
        is_run(op, retryable, max_elapsed, reported, outcomes, delays, backoffs, r),
        k <= delays.len(),
    ensures
        backoffs[k as int]@ == advance_n(backoffs[0]@, k),
        k <= backoffs[0]@.retries_left,
        forall|i: int| 0 <= i < k ==> delay_of(advance_n(backoffs[0]@, i as nat)) == Some(
            nanos_of(#[trigger] delays[i]) as nat,
        ),
    decreases k,
{
    if k > 0 {
        let j = (k - 1) as nat;
        lemma_run_backoffs(op, retryable, max_elapsed, reported, outcomes, delays, backoffs, r, j);
        lemma_advance_n_counts(backoffs[0]@, j);
        lemma_retried_step(retryable, max_elapsed, reported, outcomes[j as int], backoffs[j as int], backoffs[k as int], delays[j as int]);
    }
}

/// Under an exponential backoff, a run sleeps exactly the backoff's delays, in order: the
/// `i`-th delay slept is the one the backoff's `i`-th step hands out, so a run makes at most
/// `retries_left + 1` attempts.
pub proof fn lemma_run_sleeps_backoff_delays<T, E, F: FnOnce() -> Result<T, E>, P: Fn(&E) -> bool>(
    op: F,
    retryable: P,
    max_elapsed: Option<Duration>,
    reported: spec_fn(Duration) -> bool,
    outcomes: Seq<Result<T, E>>,
    delays: Seq<Duration>,
    backoffs: Seq<ExponentialBackoff>,
    r: Result<T, E>,
)
    requires
        is_run(op, retryable, max_elapsed, reported, outcomes, delays, backoffs, r),
    ensures
        delays.len() <= backoffs[0]@.retries_left,
        outcomes.len() <= backoffs[0]@.retries_left + 1,
        forall|i: int| 0 <= i < delays.len() ==> delay_of(advance_n(backoffs[0]@, i as nat)) == Some(
            nanos_of(#[trigger] delays[i]) as nat,
        ),
{
    lemma_run_backoffs(op, retryable, max_elapsed, reported, outcomes, delays, backoffs, r, delays.len());
}

/// With no budget and a predicate that retries every error, a run that ends in an error has
/// used up the exponential backoff: it slept all `retries_left` delays, `retries_left + 1`
/// attempts in all.
pub proof fn lemma_run_exhausts_retries<T, E, F: FnOnce() -> Result<T, E>, P: Fn(&E) -> bool>(
    op: F,
    retryable: P,
    reported: spec_fn(Duration) -> bool,
    outcomes: Seq<Result<T, E>>,
    delays: Seq<Duration>,
    backoffs: Seq<ExponentialBackoff>,
    r: Result<T, E>,
)
    requires
        is_run(op, retryable, None, reported, outcomes, delays, backoffs, r),
        retries_every_error(retryable),
        r is Err,
        state_valid(backoffs[0]@),
    ensures
        delays.len() == backoffs[0]@.retries_left,
        outcomes.len() == backoffs[0]@.retries_left + 1,
{
    let n = outcomes.len() as int;
    lemma_run_backoffs(op, retryable, None, reported, outcomes, delays, backoffs, r, delays.len());
    if n - 1 < u32::MAX {
        let e = &outcomes[n - 1]->Err_0;
        let before = backoffs[n - 1];
        let after = backoffs[n];
        let accepted = choose|accepted: bool|
            #[trigger] call_ensures(retryable, (e,), accepted) && if accepted {
                exists|next: Option<Duration>|
                    #[trigger] before.next_delay_step(&after, next) && verdict_after(next, None, reported, None)
            } else {
                &&& None::<Duration> is None
                &&& after == before
            };
        assert(retryable.ensures((e,), accepted));
        assert(accepted);
        let next = choose|next: Option<Duration>|
            #[trigger] before.next_delay_step(&after, next) && verdict_after(next, None, reported, None);
        assert(next is None);
        assert(delay_of(before@) is None);
        lemma_advance_n_counts(backoffs[0]@, (n - 1) as nat);
    }
}

/// A predicate that rejects every error ends a run at its first attempt, without stepping the
/// backoff.
pub proof fn lemma_run_stops_on_rejected_error<T, E, F: FnOnce() -> Result<T, E>, P: Fn(&E) -> bool, B: Backoff>(
    op: F,
    retryable: P,
    max_elapsed: Option<Duration>,
    reported: spec_fn(Duration) -> bool,
    outcomes: Seq<Result<T, E>>,
    delays: Seq<Duration>,
    backoffs: Seq<B>,
    r: Result<T, E>,
)
    requires
        is_run(op, retryable, max_elapsed, reported, outcomes, delays, backoffs, r),
        forall|e: &E, b: bool| #[trigger] call_ensures(retryable, (e,), b) ==> !b,
    ensures
        outcomes.len() == 1,
        delays.len() == 0,
        backoffs[1] == backoffs[0],
{
    if outcomes.len() > 1 {
        assert(retried(retryable, max_elapsed, reported, outcomes[0], backoffs[0], backoffs[1], delays[0]));
    }
}

/// An operation that can only succeed makes a run of one attempt, which returns its success.
pub proof fn lemma_run_success_first_try<T, E, F: FnOnce() -> Result<T, E>, P: Fn(&E) -> bool, B: Backoff>(
    op: F,
    retryable: P,
    max_elapsed: Option<Duration>,
    reported: spec_fn(Duration) -> bool,
    outcomes: Seq<Result<T, E>>,
    delays: Seq<Duration>,
    backoffs: Seq<B>,
    r: Result<T, E>,
)
    requires
        is_run(op, retryable, max_elapsed, reported, outcomes, delays, backoffs, r),
        forall|o: Result<T, E>| #[trigger] call_ensures(op, (), o) ==> o is Ok,
    ensures
        outcomes.len() == 1,
        delays.len() == 0,
        r is Ok,
{
    assert(call_ensures(op, (), outcomes[0]));
    if outcomes.len() > 1 {
        assert(retried(retryable, max_elapsed, reported, outcomes[0], backoffs[0], backoffs[1], delays[0]));
    }
    assert(call_ensures(op, (), outcomes[outcomes.len() - 1]));
}

/// The default run: with the default backoff, a run sleeps at most three times, and the
/// delays it sleeps are 100 ms, 200 ms and 400 ms, in that order.
pub proof fn lemma_default_run<T, E, F: FnOnce() -> Result<T, E>, P: Fn(&E) -> bool>(
    op: F,
    retryable: P,
    max_elapsed: Option<Duration>,
    reported: spec_fn(Duration) -> bool,
    outcomes: Seq<Result<T, E>>,
    delays: Seq<Duration>,
    backoffs: Seq<ExponentialBackoff>,
    r: Result<T, E>,
)
    requires
        is_run(op, retryable, max_elapsed, reported, outcomes, delays, backoffs, r),
        backoffs[0]@ == default_state(),
    ensures
        delays.len() <= 3,
        delays.len() > 0 ==> nanos_of(delays[0]) == 100_000_000,
        delays.len() > 1 ==> nanos_of(delays[1]) == 200_000_000,
        delays.len() > 2 ==> nanos_of(delays[2]) == 400_000_000,
{
    lemma_run_sleeps_backoff_delays(op, retryable, max_elapsed, reported, outcomes, delays, backoffs, r);
    let s = default_state();
    assert(advance_n(s, 0) == s);
    assert(advance_n(s, 1) == advance(s));
    assert(advance_n(s, 2) == advance(advance_n(s, 1)));
    assert(saturate(100_000_000 * 2) == 200_000_000);
    assert(saturate(200_000_000 * 2) == 400_000_000);
    if delays.len() > 0 {
        assert(delay_of(advance_n(s, 0)) == Some(nanos_of(delays[0]) as nat));
    }
    if delays.len() > 1 {
        assert(delay_of(advance_n(s, 1)) == Some(nanos_of(delays[1]) as nat));
    }
    if delays.len() > 2 {
        assert(delay_of(advance_n(s, 2)) == Some(nanos_of(delays[2]) as nat));
    }
}

/// The default run that fails for good (the default backoff, every error retried, no budget,
/// ending in an error): four attempts, with sleeps of 100 ms, 200 ms and 400 ms between them.
pub proof fn lemma_default_run_gives_up<T, E, F: FnOnce() -> Result<T, E>, P: Fn(&E) -> bool>(
    op: F,
    retryable: P,
    reported: spec_fn(Duration) -> bool,
    outcomes: Seq<Result<T, E>>,
    delays: Seq<Duration>,
    backoffs: Seq<ExponentialBackoff>,
    r: Result<T, E>,
)
    requires
        is_run(op, retryable, None, reported, outcomes, delays, backoffs, r),
        backoffs[0]@ == default_state(),
        retries_every_error(retryable),
        r is Err,
    ensures
        outcomes.len() == 4,
        delays.len() == 3,
        nanos_of(delays[0]) == 100_000_000,
        nanos_of(delays[1]) == 200_000_000,
        nanos_of(delays[2]) == 400_000_000,
{
    lemma_run_exhausts_retries(op, retryable, reported, outcomes, delays, backoffs, r);
    lemma_default_run(op, retryable, None, reported, outcomes, delays, backoffs, r);
}

/// The rule of each step of a run under an exponential backoff. Every retried attempt failed
/// with an error the predicate accepted, and waited the backoff's next delay, which under a
/// budget fits after some elapsed time the clock reported. A run that ends in an error `e` ends
/// because the retry count was full, the predicate rejected `e`, the backoff had no delay left,
/// or, under a budget, its next delay did not fit after the elapsed time the clock reported.
pub proof fn lemma_run_step_rule<T, E, F: FnOnce() -> Result<T, E>, P: Fn(&E) -> bool>(
    op: F,
    retryable: P,
    max_elapsed: Option<Duration>,
    reported: spec_fn(Duration) -> bool,
    outcomes: Seq<Result<T, E>>,
    delays: Seq<Duration>,
    backoffs: Seq<ExponentialBackoff>,
    r: Result<T, E>,
)
    requires
        is_run(op, retryable, max_elapsed, reported, outcomes, delays, backoffs, r),
    ensures
        forall|i: int| 0 <= i < delays.len() ==> {
            &&& outcomes[i] is Err
            &&& call_ensures(retryable, (&outcomes[i]->Err_0,), true)
            &&& delay_of(advance_n(backoffs[0]@, i as nat)) == Some(nanos_of(#[trigger] delays[i]) as nat)
            &&& max_elapsed matches Some(b) ==> exists|spent: Duration| reported(spent) && fits_budget(spent, delays[i], b)
        },
        r matches Err(e) ==> {
            ||| delays.len() == u32::MAX
            ||| call_ensures(retryable, (&e,), false)
            ||| delay_of(advance_n(backoffs[0]@, delays.len())) is None
            ||| max_elapsed matches Some(b) && exists|d: Duration, spent: Duration|
                delay_of(advance_n(backoffs[0]@, delays.len())) == Some(nanos_of(d) as nat)
                    && reported(spent) && !fits_budget(spent, d, b)
        },
{
    lemma_run_sleeps_backoff_delays(op, retryable, max_elapsed, reported, outcomes, delays, backoffs, r);
    assert forall|i: int| 0 <= i < delays.len() implies {
        &&& outcomes[i] is Err
        &&& call_ensures(retryable, (&outcomes[i]->Err_0,), true)
        &&& delay_of(advance_n(backoffs[0]@, i as nat)) == Some(nanos_of(#[trigger] delays[i]) as nat)
        &&& max_elapsed matches Some(b) ==> exists|spent: Duration| reported(spent) && fits_budget(spent, delays[i], b)
    } by {
        assert(retried(retryable, max_elapsed, reported, outcomes[i], backoffs[i], backoffs[i + 1], delays[i]));
        let e = &outcomes[i]->Err_0;
        let before = backoffs[i];
        let after = backoffs[i + 1];
        let d = delays[i];
        let accepted = choose|accepted: bool|
            #[trigger] call_ensures(retryable, (e,), accepted) && if accepted {
                exists|next: Option<Duration>|
                    #[trigger] before.next_delay_step(&after, next) && verdict_after(next, max_elapsed, reported, Some(d))
            } else {
                &&& Some(d) is None
                &&& after == before
            };
        let next = choose|next: Option<Duration>|
            #[trigger] before.next_delay_step(&after, next) && verdict_after(next, max_elapsed, reported, Some(d));
        if let Some(b) = max_elapsed {
            let spent = choose|spent: Duration|
                #[trigger] reported(spent) && Some(d) == (if fits_budget(spent, d, b) {
                    Some(d)
                } else {
                    None::<Duration>
                });
            assert(fits_budget(spent, d, b));
        }
    }
    if r is Err {
        let n = outcomes.len() as int;
        let k = delays.len();
        lemma_run_backoffs(op, retryable, max_elapsed, reported, outcomes, delays, backoffs, r, k);
        if k < u32::MAX {
            let e = &outcomes[n - 1]->Err_0;
            let before = backoffs[n - 1];
            let after = backoffs[n];
            let accepted = choose|accepted: bool|
                #[trigger] call_ensures(retryable, (e,), accepted) && if accepted {
                    exists|next: Option<Duration>|
                        #[trigger] before.next_delay_step(&after, next) && verdict_after(next, max_elapsed, reported, None)
                } else {
                    &&& None::<Duration> is None
                    &&& after == before
                };
            if accepted {
                let next = choose|next: Option<Duration>|
                    #[trigger] before.next_delay_step(&after, next) && verdict_after(next, max_elapsed, reported, None);
                if let (Some(d), Some(b)) = (next, max_elapsed) {
                    let spent = choose|spent: Duration|
                        #[trigger] reported(spent) && None::<Duration> == (if fits_budget(spent, d, b) {
                            Some(d)
                        } else {
                            None::<Duration>
                        });
                    assert(delay_of(advance_n(backoffs[0]@, k)) == Some(nanos_of(d) as nat)
                        && reported(spent) && !fits_budget(spent, d, b));
                }
            }
        }
    }
}

/// A budget only cuts a run short. Two runs of the same operation, from equal exponential
/// backoffs and with a predicate that answers the same on the same error, one under a budget
/// and one without: where the attempts agree, the budgeted run sleeps the same delays as the
/// other, in the same order, and it makes no more attempts and no more sleeps.
pub proof fn lemma_budget_only_cuts_short<T, E, F: FnOnce() -> Result<T, E>, P: Fn(&E) -> bool>(
    op: F,
    retryable: P,
    budget: Duration,
    reported1: spec_fn(Duration) -> bool,
    reported2: spec_fn(Duration) -> bool,
    outcomes1: Seq<Result<T, E>>,
    delays1: Seq<Duration>,
    backoffs1: Seq<ExponentialBackoff>,
    r1: Result<T, E>,
    outcomes2: Seq<Result<T, E>>,
    delays2: Seq<Duration>,
    backoffs2: Seq<ExponentialBackoff>,
    r2: Result<T, E>,
)
    requires
        is_run(op, retryable, Some(budget), reported1, outcomes1, delays1, backoffs1, r1),
        is_run(op, retryable, None, reported2, outcomes2, delays2, backoffs2, r2),
        backoffs1[0]@ == backoffs2[0]@,
        forall|i: int| 0 <= i < outcomes1.len() && 0 <= i < outcomes2.len() ==> #[trigger] outcomes1[i] == outcomes2[i],
        forall|e: &E, a: bool, b: bool|
            #[trigger] call_ensures(retryable, (e,), a) && #[trigger] call_ensures(retryable, (e,), b) ==> a == b,
    ensures
        delays1.len() <= delays2.len(),
        outcomes1.len() <= outcomes2.len(),
        forall|i: int| 0 <= i < delays1.len() ==> nanos_of(#[trigger] delays1[i]) == nanos_of(delays2[i]),
{
    lemma_run_step_rule(op, retryable, Some(budget), reported1, outcomes1, delays1, backoffs1, r1);
    lemma_run_step_rule(op, retryable, None, reported2, outcomes2, delays2, backoffs2, r2);
    let k = delays2.len() as int;
    if k < delays1.len() {
        assert(outcomes1[k] == outcomes2[k]);
        let e = &outcomes1[k]->Err_0;
        assert(call_ensures(retryable, (e,), true));
        assert(delay_of(advance_n(backoffs1[0]@, k as nat)) == Some(nanos_of(delays1[k]) as nat));
        assert(r2 == outcomes2[k]);
    }
    assert forall|i: int| 0 <= i < delays1.len() implies nanos_of(#[trigger] delays1[i]) == nanos_of(delays2[i]) by {
        assert(delay_of(advance_n(backoffs1[0]@, i as nat)) == Some(nanos_of(delays1[i]) as nat));
        assert(delay_of(advance_n(backoffs2[0]@, i as nat)) == Some(nanos_of(delays2[i]) as nat));
    }
}

} // verus!
