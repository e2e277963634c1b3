//! Durations and instants of std, as the retry and expiration logic reads them.
use std::time::{Duration, Instant};

use vstd::prelude::*;

verus! {

#[verifier::external_type_specification]
#[verifier::external_body]
pub struct ExInstant(std::time::Instant);

/// The largest number of nanoseconds a `Duration` holds.
pub open spec fn max_duration_nanos() -> nat {
    18446744073709551615nat * 1_000_000_000 + 999_999_999
}

/// What `Duration::as_nanos` gives for a duration: its length in nanoseconds.
pub uninterp spec fn as_nanos_of(d: Duration) -> u128;

/// `Duration::as_nanos`: the whole length of the duration in nanoseconds,
/// which is at most the length of `Duration::MAX`.
#[verifier::external_body]
pub(crate) fn duration_as_nanos(d: &Duration) -> (r: u128)
    ensures
        r == as_nanos_of(*d),
        r <= max_duration_nanos(),
{
    d.as_nanos()
}

/// `Duration::MAX`: the longest duration, `u64::MAX` seconds and 999 999 999
/// nanoseconds.
#[verifier::external_body]
pub(crate) fn duration_max() -> (r: Duration)
    ensures
        as_nanos_of(r) == max_duration_nanos(),
{
    Duration::MAX
}

/// `Duration::from_millis`: a duration of `millis` milliseconds.
#[verifier::external_body]
pub(crate) fn duration_from_millis(millis: u64) -> (r: Duration)
    ensures
        as_nanos_of(r) == millis * 1_000_000,
{
    Duration::from_millis(millis)
}

/// `Duration::checked_add`: the sum, or `None` where it exceeds the largest duration.
#[verifier::external_body]
pub(crate) fn duration_checked_add(a: Duration, b: Duration) -> (r: Option<Duration>)
    ensures
        r is None <==> as_nanos_of(a) + as_nanos_of(b) > max_duration_nanos(),
        r is Some ==> as_nanos_of(r->0) == as_nanos_of(a) + as_nanos_of(b),
{
    a.checked_add(b)
}

/// `Duration::checked_mul`: the product, or `None` where it exceeds the largest duration.
#[verifier::external_body]
pub(crate) fn duration_checked_mul(a: Duration, factor: u32) -> (r: Option<Duration>)
    ensures
        r is None <==> as_nanos_of(a) * factor > max_duration_nanos(),
        r is Some ==> as_nanos_of(r->0) == as_nanos_of(a) * factor,
{
    a.checked_mul(factor)
}

/// `Duration > Duration`: whether the first duration is longer.
#[verifier::external_body]
pub(crate) fn duration_gt(a: &Duration, b: &Duration) -> (r: bool)
    ensures
        r == (as_nanos_of(*a) > as_nanos_of(*b)),
{
    *a > *b
}

/// `Instant::now`: the current instant, which the clock decides.
#[verifier::external_body]
pub(crate) fn instant_now() -> (r: Instant) {
    Instant::now()
}

/// `Instant::elapsed`: the time since the instant, which the clock decides.
#[verifier::external_body]
pub(crate) fn instant_elapsed(instant: &Instant) -> (r: Duration) {
    instant.elapsed()
}

} // verus!
