//! How the library sees `std::time`: a `Duration` is taken by its length in nanoseconds, and an
//! `Instant` is an opaque point in time that only the clocks produce.

use std::time::{Duration, Instant};
use vstd::prelude::*;

verus! {

#[verifier::external_type_specification]
#[verifier::external_body]
pub struct ExInstant(Instant);

/// `Clone::clone` on `Duration`, a `Copy` type: the clone is the same value.
pub assume_specification[ <Duration as Clone>::clone ](d: &Duration) -> (r: Duration)
    ensures
        r == *d,
;

/// The length of a `Duration` in nanoseconds, as `Duration::as_nanos` reports it.
pub uninterp spec fn nanos_of(d: Duration) -> u128;

/// The length of `Duration::MAX` in nanoseconds: `u64::MAX` seconds and 999_999_999 nanoseconds.
pub open spec fn max_nanos() -> nat {
    18446744073709551615nat * 1_000_000_000nat + 999_999_999nat
}

/// The smaller of two lengths.
pub open spec fn min_nat(a: nat, b: nat) -> nat {
    if a <= b {
        a
    } else {
        b
    }
}

/// A length clamped to what a `Duration` can hold: the saturating arithmetic of `Duration`.
pub open spec fn saturate(n: nat) -> nat {
    min_nat(n, max_nanos())
}

/// `Duration::from_millis`: the result is `ms` milliseconds long.
#[verifier::external_body]
pub(crate) fn duration_from_millis(ms: u64) -> (r: Duration)
    ensures
        nanos_of(r) == ms as nat * 1_000_000,
{
    Duration::from_millis(ms)
}

/// `Duration::from_secs`: the result is `secs` seconds long.
#[verifier::external_body]
pub(crate) fn duration_from_secs(secs: u64) -> (r: Duration)
    ensures
        nanos_of(r) == secs as nat * 1_000_000_000,
{
    Duration::from_secs(secs)
}

/// `Duration::is_zero`: true exactly when the duration is zero nanoseconds long.
#[verifier::external_body]
pub(crate) fn duration_is_zero(d: &Duration) -> (r: bool)
    ensures
        r == (nanos_of(*d) == 0),
{
    d.is_zero()
}

/// `Duration::as_nanos`: the length in nanoseconds, which is never more than that of
/// `Duration::MAX`.
#[verifier::external_body]
pub(crate) fn duration_as_nanos(d: &Duration) -> (r: u128)
    ensures
        r == nanos_of(*d),
        r <= max_nanos(),
{
    d.as_nanos()
}

/// `>=` on `Duration`: compares the lengths.
#[verifier::external_body]
pub(crate) fn duration_ge(a: &Duration, b: &Duration) -> (r: bool)
    ensures
        r == (nanos_of(*a) >= nanos_of(*b)),
{
    *a >= *b
}

/// `Ord::min` on `Duration`: the shorter of the two, the first one when they are equally long.
#[verifier::external_body]
pub(crate) fn duration_min(a: Duration, b: Duration) -> (r: Duration)
    ensures
        r == (if nanos_of(a) <= nanos_of(b) {
            a
        } else {
            b
        }),
{
    a.min(b)
}

/// `Duration::saturating_mul`: the product, or `Duration::MAX` where the product would not fit.
#[verifier::external_body]
pub(crate) fn duration_saturating_mul(d: Duration, k: u32) -> (r: Duration)
    ensures
        nanos_of(r) == saturate(nanos_of(d) as nat * k as nat),
{
    d.saturating_mul(k)
}

/// `Duration::saturating_add`: the sum, or `Duration::MAX` where the sum would not fit.
#[verifier::external_body]
pub(crate) fn duration_saturating_add(a: Duration, b: Duration) -> (r: Duration)
    ensures
        nanos_of(r) == saturate(nanos_of(a) as nat + nanos_of(b) as nat),
{
    a.saturating_add(b)
}

/// `Instant::saturating_duration_since`: the time from `earlier` to `later`, zero if `later` is
/// the earlier one. Instants are opaque here, so nothing is stated of the result.
#[verifier::external_body]
pub(crate) fn instant_saturating_duration_since(later: Instant, earlier: Instant) -> Duration {
    later.saturating_duration_since(earlier)
}

} // verus!
