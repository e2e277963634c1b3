//! The decisions an agent makes around its calls to the router.
use std::time::Duration;

use vstd::prelude::*;

use crate::address::{Address, InternalAddress};
use crate::error::{BinkyError, Result};
use crate::clock::as_nanos_of;
use crate::retry::{delayed, drawn_in_range, sleep_fits, RetryCount, Sleep, Timeout};
use crate::storage::agents::Key;

verus! {

/// What resolving with a retry does after a lookup.
#[derive(Debug)]
pub enum ResolveStep {
    /// The address resolved
    Resolved(Key),
    /// Sleep this long, then look up again
    Wait(Duration),
    /// Give up with this error
    Fail(BinkyError),
}

/// The wait or failure of a step, as the sleep that it took answered.
pub open spec fn step_delay(r: ResolveStep) -> Result<Duration> {
    match r {
        ResolveStep::Wait(d) => Ok(d),
        ResolveStep::Fail(e) => Err(e),
        ResolveStep::Resolved(_) => Err(BinkyError::AddressNotFound),
    }
}

/// `r` and `after` are what a step of resolution with retries gives after
/// `lookup`, with the strategy `before`: a found key ends it; a missing address
/// takes the strategy's next sleep, waiting as long as that sleep does or giving up
/// with its `NoRetry`; any other error ends it with that error.
pub open spec fn resolve_stepped(lookup: Result<Key>, before: Timeout, after: Timeout, r: ResolveStep) -> bool {
    match lookup {
        Ok(k) => r == ResolveStep::Resolved(k) && after == before,
        Err(BinkyError::AddressNotFound) => {
            &&& !(r is Resolved)
            &&& exists|drawn_ms: u64|
                drawn_in_range(before, drawn_ms) && #[trigger] delayed(before, after, drawn_ms, step_delay(r))
        },
        Err(e) => r == ResolveStep::Fail(e) && after == before,
    }
}

/// One step of a resolution with retries (see `resolve_stepped`).
pub fn resolve_step(lookup: Result<Key>, retry: &mut Timeout) -> (r: ResolveStep)
    requires
        lookup matches Err(BinkyError::AddressNotFound) ==> sleep_fits(*old(retry)),
    ensures
        resolve_stepped(lookup, *old(retry), *final(retry), r),
{
    match lookup {
        Ok(key) => ResolveStep::Resolved(key),
        Err(BinkyError::AddressNotFound) => match retry.next_delay() {
            Ok(d) => ResolveStep::Wait(d),
            Err(e) => ResolveStep::Fail(e),
        },
        Err(e) => ResolveStep::Fail(e),
    }
}

/// The key of a local recipient, or `err` for a remote one (what `request`,
/// `send_local` and `remove_agent` refuse).
pub fn local_only(recipient: &Address, err: BinkyError) -> (r: Result<Key>)
    ensures
        match recipient.0 {
            InternalAddress::Local(k) => r matches Ok(k2) && k2 == k,
            InternalAddress::Remote { .. } => r matches Err(e) && e == err,
        },
{
    match recipient.local_key() {
        Some(k) => Ok(k),
        None => Err(err),
    }
}

} // verus!

verus! {

/// `lookups`, `states` and `steps` are a resolution with retries: each step and the
/// strategy after it are what the step after that lookup gives with the strategy
/// before it.
pub open spec fn resolve_run(lookups: Seq<Result<Key>>, states: Seq<Timeout>, steps: Seq<ResolveStep>) -> bool {
    &&& states.len() == steps.len() + 1
    &&& lookups.len() == steps.len()
    &&& forall|i: int|
        0 <= i < steps.len() ==> #[trigger] resolve_stepped(lookups[i], states[i], states[i + 1], steps[i])
}

/// Until the lookups find the address or the retries run out, the strategy of a
/// fixed sleep `d` with `n` retries has `n - i` retries left at step `i` and keeps
/// its sleep.
proof fn lemma_resolve_states(
    lookups: Seq<Result<Key>>,
    states: Seq<Timeout>,
    steps: Seq<ResolveStep>,
    n: usize,
    d: Duration,
    j: int,
    i: int,
)
    requires
        resolve_run(lookups, states, steps),
        states[0].retry_count() == RetryCount::Count(n),
        states[0].sleep_plan() == Sleep::Duration(d),
        states[0].jitter_range() is None,
        forall|m: int| 0 <= m < lookups.len() && m < j ==> lookups[m] == Err::<Key, BinkyError>(BinkyError::AddressNotFound),
        0 <= i < states.len(),
        i <= j,
        i <= n,
    ensures
        states[i].retry_count() == RetryCount::Count((n - i) as usize),
        states[i].sleep_plan() == Sleep::Duration(d),
        states[i].jitter_range() is None,
    decreases i,
{
    if i > 0 {
        let m = i - 1;
        lemma_resolve_states(lookups, states, steps, n, d, j, m);
        assert(resolve_stepped(lookups[m], states[m], states[m + 1], steps[m]));
    }
}

/// Resolving with a fixed sleep `d` and `n` retries, where the first `j` lookups
/// miss the address and the later ones find `k`: each of the first steps before
/// either waits `d`; if `j <= n` the step after the `j` misses resolves to `k`,
/// and otherwise the step after `n` waits gives up with `NoRetry`.
pub proof fn law_resolve_with_retry(
    lookups: Seq<Result<Key>>,
    states: Seq<Timeout>,
    steps: Seq<ResolveStep>,
    n: usize,
    d: Duration,
    j: int,
    k: Key,
)
    requires
        resolve_run(lookups, states, steps),
        states[0].retry_count() == RetryCount::Count(n),
        states[0].sleep_plan() == Sleep::Duration(d),
        states[0].jitter_range() is None,
        0 <= j,
        forall|m: int| 0 <= m < lookups.len() && m < j ==> lookups[m] == Err::<Key, BinkyError>(BinkyError::AddressNotFound),
        forall|m: int| 0 <= m < lookups.len() && j <= m ==> lookups[m] == Ok::<Key, BinkyError>(k),
    ensures
        forall|i: int|
            0 <= i < steps.len() && i < j && i < n ==> (#[trigger] steps[i] matches ResolveStep::Wait(w)
                && as_nanos_of(w) == as_nanos_of(d)),
        j <= n && j < steps.len() ==> steps[j] == ResolveStep::Resolved(k),
        n < j && n < steps.len() ==> steps[n as int] == ResolveStep::Fail(BinkyError::NoRetry),
{
    assert forall|i: int| 0 <= i < steps.len() && i < j && i < n implies (#[trigger] steps[i] matches ResolveStep::Wait(w)
        && as_nanos_of(w) == as_nanos_of(d)) by {
        lemma_resolve_states(lookups, states, steps, n, d, j, i);
        assert(resolve_stepped(lookups[i], states[i], states[i + 1], steps[i]));
    }
    if j <= n && j < steps.len() {
        assert(resolve_stepped(lookups[j], states[j], states[j + 1], steps[j]));
    }
    if n < j && n < steps.len() {
        let m = n as int;
        lemma_resolve_states(lookups, states, steps, n, d, j, m);
        assert(resolve_stepped(lookups[m], states[m], states[m + 1], steps[m]));
    }
}

} // verus!
