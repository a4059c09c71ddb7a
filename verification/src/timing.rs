use vstd::prelude::*;

verus! {

/// Milliseconds between the starts of two neighbouring workers.
pub const STAGGER_MILLIS: u64 = 100;

/// Milliseconds a relay worker backs off after finding the baton on another
/// index.
pub const BACKOFF_MILLIS: u64 = 100;

/// Milliseconds the poller sleeps between two reads of the counter.
pub const POLL_MILLIS: u64 = 50;

/// Milliseconds the orchestrator of the wakeup protocol lets the waiters
/// settle, before the spurious notification and again before the real one.
pub const SETTLE_MILLIS: u64 = 100;

/// How long worker `index` sleeps before its first acquisition: a delay that
/// grows with the index, so that the workers tend to arrive in index order.
/// Nothing the protocols guarantee rests on it.
pub fn stagger_millis(index: usize) -> (millis: u64)
    requires
        index * STAGGER_MILLIS <= u64::MAX,
    ensures
        millis == index * STAGGER_MILLIS,
{
    (index as u64) * STAGGER_MILLIS
}

} // verus!
