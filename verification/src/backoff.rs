//! Backoff strategies: whether to retry, and how long to wait before each attempt.
//!
//! A [`Backoff`] is a stateful sequence of delays. `retry` takes it by value and drives that
//! owned instance; reuse one policy across calls by passing a fresh (or cloned) value.

use crate::time::{
    duration_as_nanos, duration_from_millis, duration_from_secs, duration_is_zero, duration_min,
    duration_saturating_mul, max_nanos, min_nat, nanos_of, saturate,
};
use std::time::Duration;
use vstd::arithmetic::power::{lemma_pow0, lemma_pow_positive, pow};
use vstd::prelude::*;

verus! {

/// Growth factor of the default configuration.
pub const DEFAULT_FACTOR: u32 = 2;

/// First delay of the default configuration, in milliseconds.
pub const DEFAULT_BASE_MILLIS: u64 = 100;

/// Number of retries of the default configuration.
pub const DEFAULT_MAX_RETRIES: u32 = 3;

/// Cap on a single delay in the default configuration, in seconds.
pub const DEFAULT_MAX_DELAY_SECS: u64 = 30;

/// A stateful sequence of retry delays. Pure: no I/O, no sleeping, no clock reads.
///
/// A backoff is consumed as it runs, since each [`next_delay`](Backoff::next_delay) advances it,
/// so `retry` takes it **by value** and drives that owned instance. A freshly constructed value
/// must represent an un-started sequence; to reuse one policy across calls, pass a fresh (or
/// cloned) value each time.
///
/// Open on purpose: add a custom strategy by implementing it.
pub trait Backoff {
    /// Whether one call of [`next_delay`](Backoff::next_delay) may take the backoff from `self`
    /// to `after` and hand out `delay`. A strategy that says nothing more allows every step.
    open spec fn next_delay_step(&self, after: &Self, delay: Option<Duration>) -> bool {
        true
    }

    /// Delay before the next retry, or `None` to give up (e.g. retries exhausted).
    fn next_delay(&mut self) -> (r: Option<Duration>)
        ensures
            old(self).next_delay_step(final(self), r),
    ;
}

/// Why an [`ExponentialBackoff`] configuration was rejected.
#[derive(Debug, Clone, PartialEq, Eq, Structural)]
#[non_exhaustive]
pub enum BackoffConfigError {
    /// `base` was zero, so every delay would be zero (a busy-loop).
    ZeroBase,
    /// `factor` was zero, so delays would collapse to zero (a busy-loop).
    ZeroFactor,
    /// `max_delay` was smaller than `base`, which would cap the first delay below `base`.
    MaxDelayBelowBase,
}

impl BackoffConfigError {
    /// The human-readable description of the error.
    pub fn message(&self) -> (r: &'static str)
        ensures
            r@ == match self {
                BackoffConfigError::ZeroBase => "backoff `base` must be non-zero"@,
                BackoffConfigError::ZeroFactor => "backoff `factor` must be at least 1"@,
                BackoffConfigError::MaxDelayBelowBase => "backoff `max_delay` must be >= `base`"@,
            },
    {
        match self {
            BackoffConfigError::ZeroBase => "backoff `base` must be non-zero",
            BackoffConfigError::ZeroFactor => "backoff `factor` must be at least 1",
            BackoffConfigError::MaxDelayBelowBase => "backoff `max_delay` must be >= `base`",
        }
    }
}

/// Parameters for [`ExponentialBackoff::new`]. Fill only what differs from [`Default`].
#[derive(Debug, Clone)]
pub struct ExponentialBackoffConfig {
    /// Growth multiplier applied each retry (must be >= 1).
    pub factor: u32,
    /// Delay before the first retry (must be non-zero).
    pub base: Duration,
    /// Number of retries; `0` means one attempt, no retries
    /// (total attempts = `max_retries + 1`).
    pub max_retries: u32,
    /// Upper bound on any single delay (must be >= `base`).
    pub max_delay: Duration,
}

impl Default for ExponentialBackoffConfig {
    /// Sensible defaults: ×2 growth, 100 ms base, 3 retries, 30 s cap.
    fn default() -> (r: Self)
        ensures
            is_default_config(r),
    {
        ExponentialBackoffConfig {
            factor: DEFAULT_FACTOR,
            base: duration_from_millis(DEFAULT_BASE_MILLIS),
            max_retries: DEFAULT_MAX_RETRIES,
            max_delay: duration_from_secs(DEFAULT_MAX_DELAY_SECS),
        }
    }
}

/// The default configuration: ×2 growth, a 100 ms base, 3 retries and a 30 s cap.
pub open spec fn is_default_config(c: ExponentialBackoffConfig) -> bool {
    &&& c.factor == 2
    &&& nanos_of(c.base) == 100_000_000
    &&& c.max_retries == 3
    &&& nanos_of(c.max_delay) == 30_000_000_000
}

/// The state of the default backoff: ×2 growth, a 30 s cap, a first delay of 100 ms, 3 retries.
pub open spec fn default_state() -> BackoffState {
    BackoffState { factor: 2, max_delay: 30_000_000_000, next: 100_000_000, retries_left: 3 }
}

/// What [`ExponentialBackoff::new`] rejects a configuration for, checked in this order.
pub open spec fn config_error(c: ExponentialBackoffConfig) -> Option<BackoffConfigError> {
    if nanos_of(c.base) == 0 {
        Some(BackoffConfigError::ZeroBase)
    } else if c.factor == 0 {
        Some(BackoffConfigError::ZeroFactor)
    } else if nanos_of(c.max_delay) < nanos_of(c.base) {
        Some(BackoffConfigError::MaxDelayBelowBase)
    } else {
        None
    }
}

/// The state of an exponential backoff, with every duration taken in nanoseconds.
pub struct BackoffState {
    /// Growth multiplier.
    pub factor: nat,
    /// Cap on any single delay.
    pub max_delay: nat,
    /// The next delay to hand out.
    pub next: nat,
    /// How many more delays will be handed out.
    pub retries_left: nat,
}

/// What every backoff's state satisfies: a growth factor of at least 1, a next delay that is
/// positive and within the cap, and a cap that a `Duration` can hold.
pub open spec fn state_valid(s: BackoffState) -> bool {
    &&& s.factor >= 1
    &&& 0 < s.next <= s.max_delay
    &&& s.max_delay <= max_nanos()
    &&& s.retries_left <= u32::MAX
}

/// The state of a freshly built backoff: nothing handed out yet, the first delay is `base`.
pub open spec fn initial_state(c: ExponentialBackoffConfig) -> BackoffState {
    BackoffState {
        factor: c.factor as nat,
        max_delay: nanos_of(c.max_delay) as nat,
        next: nanos_of(c.base) as nat,
        retries_left: c.max_retries as nat,
    }
}

/// What `next_delay` hands out in state `s`: the next delay, or `None` once retries run out.
pub open spec fn delay_of(s: BackoffState) -> Option<nat> {
    if s.retries_left == 0 {
        None
    } else {
        Some(s.next)
    }
}

/// The state after one call of `next_delay`: one retry fewer, and the delay grown by `factor`
/// (saturating), capped at `max_delay`. An exhausted backoff stays as it is.
pub open spec fn advance(s: BackoffState) -> BackoffState {
    if s.retries_left == 0 {
        s
    } else {
        BackoffState {
            next: min_nat(saturate(s.next * s.factor), s.max_delay),
            retries_left: (s.retries_left - 1) as nat,
            ..s
        }
    }
}

/// The state after `n` calls of `next_delay`.
pub open spec fn advance_n(s: BackoffState, n: nat) -> BackoffState
    decreases n,
{
    if n == 0 {
        s
    } else {
        advance(advance_n(s, (n - 1) as nat))
    }
}

/// `base` multiplied `i` times by `factor`, each product saturating at `Duration::MAX`: that is,
/// `base · factor^i`, or `Duration::MAX` where that does not fit.
pub open spec fn grown(base: nat, factor: nat, i: nat) -> nat
    decreases i,
{
    if i == 0 {
        base
    } else {
        saturate(grown(base, factor, (i - 1) as nat) * factor)
    }
}

/// The `i`-th delay (counting from 0) of a backoff built from `c`, while retries last: `base`
/// grown by `factor` `i` times, capped at `max_delay`.
pub open spec fn nth_delay(c: ExponentialBackoffConfig, i: nat) -> nat {
    min_nat(grown(nanos_of(c.base) as nat, c.factor as nat, i), nanos_of(c.max_delay) as nat)
}

/// Exponential backoff: the delay grows by `factor` each retry, capped at `max_delay`, for at
/// most `max_retries` retries.
///
/// Construct via [`new`](ExponentialBackoff::new), which validates an
/// [`ExponentialBackoffConfig`]; a zero `base` or `factor` would cause a zero-delay busy-loop, so
/// those configs are rejected up front. A freshly built value is an un-started sequence, and
/// `retry` consumes it by value, so pass a fresh (or cloned) one to run the same policy again.
///
/// Delays are deterministic: no jitter is applied, so a given config always yields the same
/// sequence.
#[derive(Debug)]
pub struct ExponentialBackoff {
    factor: u32,
    max_delay: Duration,
    next: Duration,
    retries_left: u32,
}

impl View for ExponentialBackoff {
    type V = BackoffState;

    closed spec fn view(&self) -> BackoffState {
        BackoffState {
            factor: self.factor as nat,
            max_delay: nanos_of(self.max_delay) as nat,
            next: nanos_of(self.next) as nat,
            retries_left: self.retries_left as nat,
        }
    }
}

impl ExponentialBackoff {
    #[verifier::type_invariant]
    spec fn well_formed(self) -> bool {
        &&& self.factor >= 1
        &&& 0 < nanos_of(self.next) <= nanos_of(self.max_delay)
        &&& nanos_of(self.max_delay) <= max_nanos()
    }

    /// Validate an [`ExponentialBackoffConfig`] into a ready-to-run backoff.
    ///
    /// # Errors
    /// Returns [`BackoffConfigError`] if the config would produce a degenerate
    /// (e.g. zero-delay) sequence: see [`config_error`].
    pub fn new(config: ExponentialBackoffConfig) -> (r: Result<Self, BackoffConfigError>)
        ensures
            match r {
                Ok(b) => {
                    &&& config_error(config) is None
                    &&& b@ == initial_state(config)
                    &&& state_valid(b@)
                },
                Err(e) => config_error(config) == Some(e),
            },
    {
        let ExponentialBackoffConfig { factor, base, max_retries, max_delay } = config;
        if duration_is_zero(&base) {
            return Err(BackoffConfigError::ZeroBase);
        }
        if factor == 0 {
            return Err(BackoffConfigError::ZeroFactor);
        }
        if duration_as_nanos(&max_delay) < duration_as_nanos(&base) {
            return Err(BackoffConfigError::MaxDelayBelowBase);
        }
        Ok(ExponentialBackoff { factor, max_delay, next: base, retries_left: max_retries })
    }
}

impl Clone for ExponentialBackoff {
    /// A copy at the same point of the sequence.
    fn clone(&self) -> (r: Self)
        ensures
            r@ == self@,
    {
        proof {
            use_type_invariant(self);
        }
        ExponentialBackoff {
            factor: self.factor,
            max_delay: self.max_delay,
            next: self.next,
            retries_left: self.retries_left,
        }
    }
}

impl Default for ExponentialBackoff {
    /// Sensible defaults: 100 ms base, ×2 growth, 30 s cap, 3 retries.
    fn default() -> (r: Self)
        ensures
            r@ == default_state(),
    {
        Self::new(ExponentialBackoffConfig::default()).expect("default exponential-backoff config is valid")
    }
}

impl Backoff for ExponentialBackoff {
    /// The step of [`advance`]: the delay handed out is the one [`delay_of`] gives.
    open spec fn next_delay_step(&self, after: &Self, delay: Option<Duration>) -> bool {
        &&& (delay is None <==> delay_of(self@) is None)
        &&& (delay matches Some(d) ==> delay_of(self@) == Some(nanos_of(d) as nat))
        &&& after@ == advance(self@)
    }

    /// Hands out the current delay and grows the next one by `factor` (saturating at
    /// `Duration::MAX`), capped at `max_delay`; `None` once the retries are used up.
    fn next_delay(&mut self) -> (r: Option<Duration>)
        ensures
            r is None <==> delay_of(old(self)@) is None,
            r matches Some(d) ==> delay_of(old(self)@) == Some(nanos_of(d) as nat),
            final(self)@ == advance(old(self)@),
            state_valid(old(self)@),
            state_valid(final(self)@),
    {
        proof {
            use_type_invariant(&*self);
        }
        if self.retries_left == 0 {
            return None;
        }
        self.retries_left = self.retries_left - 1;
        let delay = duration_min(self.next, self.max_delay);
        proof {
            lemma_scale_up(nanos_of(self.next) as nat, self.factor as nat);
        }
        self.next = duration_min(duration_saturating_mul(self.next, self.factor), self.max_delay);
        Some(delay)
    }
}

// Laws of the exponential backoff.

/// Growing by a factor of at least 1 never shrinks a length.
proof fn lemma_scale_up(x: nat, f: nat)
    requires
        f >= 1,
    ensures
        x * f >= x,
{
    assert(x * f >= x) by (nonlinear_arith)
        requires
            f >= 1,
    ;
}

/// Growing `base` never takes it below `base`, when `factor >= 1` and `base` fits a `Duration`.
proof fn lemma_grown_at_least_base(base: nat, factor: nat, i: nat)
    requires
        factor >= 1,
        base <= max_nanos(),
    ensures
        grown(base, factor, i) >= base,
        grown(base, factor, i + 1) >= grown(base, factor, i),
    decreases i,
{
    lemma_scale_up(grown(base, factor, i), factor);
    if i > 0 {
        lemma_grown_at_least_base(base, factor, (i - 1) as nat);
    }
}

/// One step of the sequence: growing the capped `i`-th delay and capping again gives the
/// capped `i + 1`-th delay.
proof fn lemma_nth_delay_step(c: ExponentialBackoffConfig, i: nat)
    requires
        config_error(c) is None,
    ensures
        nth_delay(c, i + 1) == min_nat(saturate(nth_delay(c, i) * c.factor as nat), nanos_of(c.max_delay) as nat),
{
    let f = c.factor as nat;
    let g = grown(nanos_of(c.base) as nat, f, i);
    let cap = nanos_of(c.max_delay) as nat;
    lemma_scale_up(g, f);
    lemma_scale_up(cap, f);
    let d = nth_delay(c, i);
    assert(d * f == (if d == g { g * f } else { cap * f }));
}

/// The state after `i` calls on a fresh backoff, while retries last.
proof fn lemma_state_after(c: ExponentialBackoffConfig, i: nat)
    requires
        config_error(c) is None,
        i <= c.max_retries,
    ensures
        advance_n(initial_state(c), i) == (BackoffState {
            factor: c.factor as nat,
            max_delay: nanos_of(c.max_delay) as nat,
            next: nth_delay(c, i),
            retries_left: (c.max_retries - i) as nat,
        }),
    decreases i,
{
    if i == 0 {
        assert(nth_delay(c, 0) == nanos_of(c.base) as nat);
    } else {
        lemma_state_after(c, (i - 1) as nat);
        lemma_nth_delay_step(c, (i - 1) as nat);
    }
}

/// Once a backoff has given up, it gives up for good: further calls change nothing.
pub proof fn lemma_exhausted_stays_exhausted(s: BackoffState, n: nat)
    requires
        delay_of(s) is None,
    ensures
        advance_n(s, n) == s,
        delay_of(advance_n(s, n)) is None,
    decreases n,
{
    if n > 0 {
        lemma_exhausted_stays_exhausted(s, (n - 1) as nat);
    }
}

/// The delays of a backoff built from a configuration `c` that `new` accepts (its `ensures`
/// gives `state_valid(initial_state(c))`): the `i`-th call of `next_delay` (counting from 0)
/// hands out `base · factor^i` (saturating at `Duration::MAX`) capped at `max_delay` while
/// `i < max_retries`, and gives up from then on. So the sequence depends on the configuration
/// alone, holds exactly `max_retries` delays (`max_retries + 1` attempts in all), and starts
/// with `base`.
pub proof fn lemma_delay_sequence(c: ExponentialBackoffConfig, i: nat)
    requires
        state_valid(initial_state(c)),
    ensures
        delay_of(advance_n(initial_state(c), i)) == (if i < c.max_retries {
            Some(nth_delay(c, i))
        } else {
            None::<nat>
        }),
        nth_delay(c, i) == min_nat(
            saturate((nanos_of(c.base) * pow(c.factor as int, i)) as nat),
            nanos_of(c.max_delay) as nat,
        ),
        nth_delay(c, 0) == nanos_of(c.base),
    decreases i,
{
    lemma_grown_is_power(nanos_of(c.base) as nat, c.factor as nat, i);
    if i <= c.max_retries {
        lemma_state_after(c, i);
    } else {
        lemma_delay_sequence(c, (i - 1) as nat);
        lemma_state_after(c, c.max_retries as nat);
        lemma_exhausted_stays_exhausted(advance_n(initial_state(c), (i - 1) as nat), 1);
    }
}

/// The delays never shrink, never fall below `base` and never exceed `max_delay`.
pub proof fn lemma_delays_grow_within_bounds(c: ExponentialBackoffConfig, i: nat)
    requires
        state_valid(initial_state(c)),
    ensures
        nanos_of(c.base) <= nth_delay(c, i) <= nanos_of(c.max_delay),
        nth_delay(c, i) <= nth_delay(c, i + 1),
{
    lemma_grown_at_least_base(nanos_of(c.base) as nat, c.factor as nat, i);
}

/// The growth in closed form: for a `base` that fits a `Duration` and a `factor` of at least 1,
/// growing `i` times is `base · factor^i`, saturating at `Duration::MAX`.
pub proof fn lemma_grown_is_power(base: nat, factor: nat, i: nat)
    requires
        factor >= 1,
        base <= max_nanos(),
    ensures
        grown(base, factor, i) == saturate((base * pow(factor as int, i)) as nat),
    decreases i,
{
    reveal(pow);
    if i == 0 {
        lemma_pow0(factor as int);
    } else {
        let k = (i - 1) as nat;
        lemma_grown_is_power(base, factor, k);
        let p = pow(factor as int, k);
        lemma_pow_positive(factor as int, k);
        assert(pow(factor as int, i) == factor * p);
        assert(base * p >= 0) by (nonlinear_arith)
            requires
                p > 0,
        ;
        assert(base * (factor * p) == (base * p) * factor) by (nonlinear_arith);
        lemma_scale_up((base * p) as nat, factor);
        lemma_scale_up(max_nanos(), factor);
    }
}

/// After `n` calls, `n` retries fewer remain (none once they run out); the growth factor and the
/// cap never change.
pub proof fn lemma_advance_n_counts(s: BackoffState, n: nat)
    ensures
        advance_n(s, n).retries_left == (if n <= s.retries_left {
            (s.retries_left - n) as nat
        } else {
            0
        }),
        advance_n(s, n).factor == s.factor,
        advance_n(s, n).max_delay == s.max_delay,
    decreases n,
{
    if n > 0 {
        lemma_advance_n_counts(s, (n - 1) as nat);
    }
}

} // verus!
