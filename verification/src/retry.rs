//! Retry strategies: how often to retry and how long to wait in between.
use std::time::Duration;

use rand::Rng;
use vstd::prelude::*;

use crate::clock::{
    as_nanos_of, duration_as_nanos, duration_checked_add, duration_checked_mul,
    duration_from_millis, max_duration_nanos,
};
use crate::error::{BinkyError, Result};

verus! {

/// `rand::Rng::gen_range` on the thread's generator: a random number in
/// `lo..hi`, which must not be empty.
#[verifier::external_body]
fn random_in_range(lo: u64, hi: u64) -> (r: u64)
    requires
        lo < hi,
    ensures
        lo <= r < hi,
{
    rand::thread_rng().gen_range(lo..hi)
}

/// How many retries are left.
#[derive(Debug, Copy, Clone)]
pub enum RetryCount {
    Never,
    Count(usize),
    Forever,
}

/// How long to sleep between retries.
#[derive(Debug, Copy, Clone)]
pub enum Sleep {
    NoSleep,
    Duration(Duration),
    Linear(Duration, Duration),
    Exponential(Duration),
}

/// A timeout representation: a retry count, a sleep strategy and an optional
/// jitter in milliseconds.
#[derive(Debug, Copy, Clone)]
pub struct Timeout {
    retries: RetryCount,
    sleep: Sleep,
    jitter: Option<(u64, u64)>,
}

/// Whether a retry count allows one more retry.
pub open spec fn may_retry(r: RetryCount) -> bool {
    match r {
        RetryCount::Never => false,
        RetryCount::Count(n) => n > 0,
        RetryCount::Forever => true,
    }
}

/// The retry count after one retry.
pub open spec fn after_retry(r: RetryCount) -> RetryCount {
    match r {
        RetryCount::Count(n) => RetryCount::Count((n - 1) as usize),
        _ => r,
    }
}

/// The duration a sleep strategy sleeps next, if it sleeps.
pub open spec fn base_delay(s: Sleep) -> Option<Duration> {
    match s {
        Sleep::NoSleep => None,
        Sleep::Duration(d) => Some(d),
        Sleep::Linear(d, _) => Some(d),
        Sleep::Exponential(d) => Some(d),
    }
}

/// The next sleep strategy advanced from `before`: a linear strategy adds its
/// step, an exponential one doubles, the others stay.
pub open spec fn advanced(before: Sleep, after: Sleep) -> bool {
    match before {
        Sleep::Linear(d, add) => after matches Sleep::Linear(d2, add2) && add2 == add
            && as_nanos_of(d2) == as_nanos_of(d) + as_nanos_of(add),
        Sleep::Exponential(d) => after matches Sleep::Exponential(d2) && as_nanos_of(d2) == 2
            * as_nanos_of(d),
        _ => after == before,
    }
}

/// The strategy can advance without exceeding the largest duration.
pub open spec fn advance_fits(s: Sleep) -> bool {
    match s {
        Sleep::Linear(d, add) => as_nanos_of(d) + as_nanos_of(add) <= max_duration_nanos(),
        Sleep::Exponential(d) => 2 * as_nanos_of(d) <= max_duration_nanos(),
        _ => true,
    }
}

/// The jitter in nanoseconds added to a sleep, given the drawn milliseconds.
pub open spec fn jitter_nanos(jitter: Option<(u64, u64)>, drawn_ms: u64) -> nat {
    if jitter is Some {
        (drawn_ms * 1_000_000) as nat
    } else {
        0
    }
}

/// The longest jitter in nanoseconds that a range of milliseconds draws.
pub open spec fn max_jitter_nanos(jitter: Option<(u64, u64)>) -> int {
    match jitter {
        Some((lo, hi)) => (hi - 1) * 1_000_000,
        None => 0,
    }
}

/// Whether the next sleep of `t` waits for its strategy: a retry is left and the
/// strategy sleeps.
pub open spec fn sleeps_next(t: Timeout) -> bool {
    may_retry(t.retry_count()) && base_delay(t.sleep_plan()) is Some
}

/// Whether `drawn_ms` is a jitter that the next sleep of `t` may draw: one from its
/// range where that sleep draws one, any value where it draws none.
pub open spec fn drawn_in_range(t: Timeout, drawn_ms: u64) -> bool {
    sleeps_next(t) ==> (t.jitter_range() matches Some((lo, hi)) ==> lo <= drawn_ms < hi)
}

/// Whether the next sleep of `t` is defined: where it waits, its jitter range is
/// not empty, advancing the strategy stays within the largest duration, and so
/// does the wait with the longest jitter.
pub open spec fn sleep_fits(t: Timeout) -> bool {
    sleeps_next(t) ==> {
        &&& t.jitter_range() matches Some((lo, hi)) ==> lo < hi
        &&& advance_fits(t.sleep_plan())
        &&& as_nanos_of(base_delay(t.sleep_plan())->0) + max_jitter_nanos(t.jitter_range())
            <= max_duration_nanos()
    }
}

/// `after` and `r` are what the next sleep of `before` gives when the jitter draws
/// `drawn_ms` milliseconds. With no retry left: `NoRetry`, and nothing changes.
/// Otherwise the retry is spent and the sleep succeeds: a strategy that does not
/// sleep waits no time; one that sleeps waits its next duration plus the jitter,
/// and advances.
pub open spec fn delayed(before: Timeout, after: Timeout, drawn_ms: u64, r: Result<Duration>) -> bool {
    &&& !may_retry(before.retry_count()) ==> (r matches Err(e) && e is NoRetry) && after == before
    &&& may_retry(before.retry_count()) ==> {
        &&& r is Ok
        &&& after.retry_count() == after_retry(before.retry_count())
        &&& after.jitter_range() == before.jitter_range()
        &&& advanced(before.sleep_plan(), after.sleep_plan())
        &&& as_nanos_of(r->Ok_0) == match base_delay(before.sleep_plan()) {
            None => 0,
            Some(d) => as_nanos_of(d) + jitter_nanos(before.jitter_range(), drawn_ms),
        }
    }
}

impl Timeout {
    /// The retries left.
    pub closed spec fn retry_count(&self) -> RetryCount {
        self.retries
    }

    /// The sleep strategy.
    pub closed spec fn sleep_plan(&self) -> Sleep {
        self.sleep
    }

    /// The jitter range in milliseconds.
    pub closed spec fn jitter_range(&self) -> Option<(u64, u64)> {
        self.jitter
    }

    /// The next sleep given that the jitter drew `drawn_ms` milliseconds: `NoRetry`
    /// when no retry is left (nothing changes); otherwise the retry is spent and the
    /// wait is no time for a strategy that does not sleep, or the strategy's next
    /// duration plus the jitter, with the strategy advanced.
    pub fn next_delay_with_jitter(&mut self, drawn_ms: u64) -> (r: Result<Duration>)
        requires
            sleeps_next(*old(self)) ==> {
                &&& advance_fits(old(self).sleep_plan())
                &&& as_nanos_of(base_delay(old(self).sleep_plan())->0) + jitter_nanos(
                    old(self).jitter_range(),
                    drawn_ms,
                ) <= max_duration_nanos()
            },
        ensures
            delayed(*old(self), *final(self), drawn_ms, r),
    {
        match self.retries {
            RetryCount::Never => return Err(BinkyError::NoRetry),
            RetryCount::Count(0) => return Err(BinkyError::NoRetry),
            RetryCount::Count(count) => {
                self.retries = RetryCount::Count(count - 1);
            },
            RetryCount::Forever => {},
        }
        let duration = match self.sleep {
            Sleep::NoSleep => return Ok(duration_from_millis(0)),
            Sleep::Linear(duration, add) => {
                match duration_checked_add(duration, add) {
                    Some(next) => {
                        self.sleep = Sleep::Linear(next, add);
                    },
                    None => {
                        proof {
                            assert(false);
                        }
                    },
                }
                duration
            },
            Sleep::Exponential(duration) => {
                match duration_checked_mul(duration, 2) {
                    Some(next) => {
                        self.sleep = Sleep::Exponential(next);
                    },
                    None => {
                        proof {
                            assert(false);
                        }
                    },
                }
                duration
            },
            Sleep::Duration(duration) => duration,
        };
        match self.jitter {
            Some(_) => match duration_checked_add(duration, duration_from_millis(drawn_ms)) {
                Some(d) => Ok(d),
                None => {
                    proof {
                        assert(false);
                    }
                    Ok(duration)
                },
            },
            None => Ok(duration),
        }
    }

    /// Whether `next_delay` is defined on this strategy (see `sleep_fits`).
    pub fn sleep_defined(&self) -> (r: bool)
        ensures
            r == sleep_fits(*self),
    {
        let retry_left = match self.retries {
            RetryCount::Never => false,
            RetryCount::Count(n) => n > 0,
            RetryCount::Forever => true,
        };
        if !retry_left {
            return true;
        }
        let max: u128 = 18446744073709551615u128 * 1_000_000_000u128 + 999_999_999u128;
        let jitter_ok = match self.jitter {
            Some((lo, hi)) => lo < hi,
            None => true,
        };
        let extra: u128 = match self.jitter {
            Some((lo, hi)) => if lo < hi { (hi as u128 - 1) * 1_000_000 } else { 0 },
            None => 0,
        };
        match self.sleep {
            Sleep::NoSleep => true,
            Sleep::Duration(d) => jitter_ok && duration_as_nanos(&d) <= max - extra,
            Sleep::Linear(d, add) => {
                let a = duration_as_nanos(&d);
                let b = duration_as_nanos(&add);
                jitter_ok && a <= max - b && a <= max - extra
            },
            Sleep::Exponential(d) => {
                let a = duration_as_nanos(&d);
                jitter_ok && a <= max - a && a <= max - extra
            },
        }
    }

    /// The next sleep, with the jitter drawn at random from its range where the
    /// sleep waits.
    pub fn next_delay(&mut self) -> (r: Result<Duration>)
        requires
            sleep_fits(*old(self)),
        ensures
            exists|drawn_ms: u64|
                drawn_in_range(*old(self), drawn_ms) && #[trigger] delayed(
                    *old(self),
                    *final(self),
                    drawn_ms,
                    r,
                ),
    {
        let retry_left = match self.retries {
            RetryCount::Never => false,
            RetryCount::Count(n) => n > 0,
            RetryCount::Forever => true,
        };
        let sleeps = match self.sleep {
            Sleep::NoSleep => false,
            _ => true,
        };
        let drawn = match self.jitter {
            Some((lo, hi)) => if retry_left && sleeps {
                random_in_range(lo, hi)
            } else {
                0
            },
            None => 0,
        };
        self.next_delay_with_jitter(drawn)
    }

    /// Set the jitter in milliseconds.
    pub fn jitter_ms(self, range: std::ops::Range<u64>) -> (r: Self)
        ensures
            r.jitter_range() == Some((range.start, range.end)),
            r.retry_count() == self.retry_count(),
            r.sleep_plan() == self.sleep_plan(),
    {
        Timeout { jitter: Some((range.start, range.end)), ..self }
    }

    /// The sleep duration.
    pub fn duration(self, duration: Duration) -> (r: Self)
        ensures
            r.sleep_plan() == Sleep::Duration(duration),
            r.retry_count() == self.retry_count(),
            r.jitter_range() == self.jitter_range(),
    {
        Timeout { sleep: Sleep::Duration(duration), ..self }
    }

    /// The sleep duration in milliseconds.
    pub fn duration_ms(self, millis: u64) -> (r: Self)
        ensures
            r.sleep_plan() matches Sleep::Duration(d) && as_nanos_of(d) == millis * 1_000_000,
            r.retry_count() == self.retry_count(),
            r.jitter_range() == self.jitter_range(),
    {
        self.duration(duration_from_millis(millis))
    }

    /// Linearly increment the duration by adding `add` after each sleep.
    pub fn linear(self, duration: Duration, add: Duration) -> (r: Self)
        ensures
            r.sleep_plan() == Sleep::Linear(duration, add),
            r.retry_count() == self.retry_count(),
            r.jitter_range() == self.jitter_range(),
    {
        Timeout { sleep: Sleep::Linear(duration, add), ..self }
    }

    /// Exponentially increase the sleep time per sleep.
    pub fn exponential(self, duration: Duration) -> (r: Self)
        ensures
            r.sleep_plan() == Sleep::Exponential(duration),
            r.retry_count() == self.retry_count(),
            r.jitter_range() == self.jitter_range(),
    {
        Timeout { sleep: Sleep::Exponential(duration), ..self }
    }

    /// Never run out of retries.
    pub fn forever(self) -> (r: Self)
        ensures
            r.retry_count() == RetryCount::Forever,
            r.sleep_plan() == self.sleep_plan(),
            r.jitter_range() == self.jitter_range(),
    {
        Timeout { retries: RetryCount::Forever, ..self }
    }

    /// Set the number of retries before `NoRetry`.
    pub fn retries(self, count: usize) -> (r: Self)
        ensures
            r.retry_count() == RetryCount::Count(count),
            r.sleep_plan() == self.sleep_plan(),
            r.jitter_range() == self.jitter_range(),
    {
        Timeout { retries: RetryCount::Count(count), ..self }
    }
}

/// Create a retry strategy: one retry, no sleep, no jitter.
pub fn timeout() -> (r: Timeout)
    ensures
        r.retry_count() == RetryCount::Count(1),
        r.sleep_plan() == Sleep::NoSleep,
        r.jitter_range() is None,
{
    Timeout { retries: RetryCount::Count(1), sleep: Sleep::NoSleep, jitter: None }
}

} // verus!

verus! {

/// `states`, `drawn` and `results` are a run of sleeps: each result and the state
/// after it are what the sleep of the state before gives with that jitter.
pub open spec fn sleep_run(states: Seq<Timeout>, drawn: Seq<u64>, results: Seq<Result<Duration>>) -> bool {
    &&& states.len() == results.len() + 1
    &&& drawn.len() == results.len()
    &&& forall|i: int|
        0 <= i < results.len() ==> #[trigger] delayed(states[i], states[i + 1], drawn[i], results[i])
}

/// Along a run that starts with `n` retries, the `i`-th state has `n - i` left,
/// and none once `n` are spent.
proof fn lemma_run_counts(states: Seq<Timeout>, drawn: Seq<u64>, results: Seq<Result<Duration>>, n: usize, k: int)
    requires
        sleep_run(states, drawn, results),
        states[0].retry_count() == RetryCount::Count(n),
        0 <= k < states.len(),
    ensures
        states[k].retry_count() == RetryCount::Count(if k <= n { (n - k) as usize } else { 0 }),
    decreases k,
{
    if k > 0 {
        lemma_run_counts(states, drawn, results, n, k - 1);
        let j = k - 1;
        assert(delayed(states[j], states[j + 1], drawn[j], results[j]));
    }
}

/// Along a run that starts forever, every state is forever.
proof fn lemma_run_forever(states: Seq<Timeout>, drawn: Seq<u64>, results: Seq<Result<Duration>>, k: int)
    requires
        sleep_run(states, drawn, results),
        states[0].retry_count() == RetryCount::Forever,
        0 <= k < states.len(),
    ensures
        states[k].retry_count() == RetryCount::Forever,
    decreases k,
{
    if k > 0 {
        lemma_run_forever(states, drawn, results, k - 1);
        let j = k - 1;
        assert(delayed(states[j], states[j + 1], drawn[j], results[j]));
    }
}

/// A strategy with `n` retries sleeps `n` times, whatever its sleep strategy, and
/// answers every later call with `NoRetry`.
pub proof fn law_retries_then_no_retry(
    states: Seq<Timeout>,
    drawn: Seq<u64>,
    results: Seq<Result<Duration>>,
    n: usize,
)
    requires
        sleep_run(states, drawn, results),
        states[0].retry_count() == RetryCount::Count(n),
    ensures
        forall|i: int| 0 <= i < results.len() ==> (#[trigger] results[i] is Ok <==> i < n),
        forall|i: int| n <= i < results.len() ==> (#[trigger] results[i] matches Err(e) && e is NoRetry),
{
    assert forall|i: int| 0 <= i < results.len() implies (#[trigger] results[i] is Ok <==> i < n) && (n <= i
        ==> (results[i] matches Err(e) && e is NoRetry)) by {
        lemma_run_counts(states, drawn, results, n, i);
        assert(delayed(states[i], states[i + 1], drawn[i], results[i]));
    }
}

/// A strategy that retries forever never answers `NoRetry`, whatever its sleep
/// strategy.
pub proof fn law_forever_never_runs_out(states: Seq<Timeout>, drawn: Seq<u64>, results: Seq<Result<Duration>>)
    requires
        sleep_run(states, drawn, results),
        states[0].retry_count() == RetryCount::Forever,
    ensures
        forall|i: int| 0 <= i < results.len() ==> #[trigger] results[i] is Ok,
{
    assert forall|i: int| 0 <= i < results.len() implies #[trigger] results[i] is Ok by {
        lemma_run_forever(states, drawn, results, i);
        assert(delayed(states[i], states[i + 1], drawn[i], results[i]));
    }
}

/// A sleep with a retry left succeeds and waits the strategy's current duration
/// plus the drawn jitter in milliseconds (no time for a strategy that does not
/// sleep, and no jitter without a jitter range), spending one retry of a count;
/// with no retry left it answers `NoRetry` and changes nothing.
pub proof fn law_sleep_waits_its_duration(before: Timeout, after: Timeout, drawn_ms: u64, r: Result<Duration>)
    requires
        delayed(before, after, drawn_ms, r),
    ensures
        !may_retry(before.retry_count()) ==> (r matches Err(e) && e is NoRetry) && after == before,
        may_retry(before.retry_count()) ==> r is Ok,
        may_retry(before.retry_count()) && before.sleep_plan() is NoSleep ==> as_nanos_of(r->Ok_0) == 0,
        may_retry(before.retry_count()) ==> (before.sleep_plan() matches Sleep::Duration(d) ==> as_nanos_of(r->Ok_0)
            == as_nanos_of(d) + (if before.jitter_range() is Some { drawn_ms * 1_000_000 } else { 0 })),
        may_retry(before.retry_count()) ==> (before.sleep_plan() matches Sleep::Linear(d, _) ==> as_nanos_of(
            r->Ok_0,
        ) == as_nanos_of(d) + (if before.jitter_range() is Some { drawn_ms * 1_000_000 } else { 0 })),
        may_retry(before.retry_count()) ==> (before.sleep_plan() matches Sleep::Exponential(d) ==> as_nanos_of(
            r->Ok_0,
        ) == as_nanos_of(d) + (if before.jitter_range() is Some { drawn_ms * 1_000_000 } else { 0 })),
        before.retry_count() matches RetryCount::Count(n) ==> (n > 0 ==> after.retry_count() == RetryCount::Count(
            (n - 1) as usize,
        )),
        before.retry_count() is Forever ==> after.retry_count() is Forever,
        may_retry(before.retry_count()) ==> after.jitter_range() == before.jitter_range(),
{
}

/// Each sleep of a linear strategy is its step longer than the one before,
/// and each sleep of an exponential one twice as long.
pub proof fn law_sleep_progression(before: Timeout, after: Timeout, drawn_ms: u64, r: Result<Duration>)
    requires
        may_retry(before.retry_count()),
        delayed(before, after, drawn_ms, r),
    ensures
        before.sleep_plan() matches Sleep::Linear(d, add) ==> (base_delay(after.sleep_plan())
            matches Some(d2) && as_nanos_of(d2) == as_nanos_of(d) + as_nanos_of(add)),
        before.sleep_plan() matches Sleep::Exponential(d) ==> (base_delay(after.sleep_plan())
            matches Some(d2) && as_nanos_of(d2) == 2 * as_nanos_of(d)),
        before.sleep_plan() matches Sleep::Duration(d) ==> after.sleep_plan() == Sleep::Duration(d),
{
}

} // verus!
