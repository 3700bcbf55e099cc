//! Instants and deadlines, in milliseconds on the caller's monotonic clock.

use vstd::prelude::*;

verus! {

/// The instant `timeout` milliseconds after `now`, held at the largest
/// representable instant where the sum would pass it.
pub open spec fn deadline_after(now: u64, timeout: u64) -> u64 {
    if now + timeout > u64::MAX {
        u64::MAX
    } else {
        (now + timeout) as u64
    }
}

/// Computes the instant at which a wait that starts at `now` gives up.
pub fn deadline(now: u64, timeout: u64) -> (at: u64)
    ensures
        at == deadline_after(now, timeout),
        at >= now,
{
    now.saturating_add(timeout)
}

} // verus!
