//! Time as the runtime counts it.

use vstd::prelude::*;

verus! {

/// Point on the runtime's monotonic clock, in nanoseconds since its origin.
pub type Instant = u64;

/// Length of time in nanoseconds.
pub type Duration = u64;

/// Accumulated length of time in nanoseconds.
pub type TotalDuration = u128;

/// The time from `earlier` to `later`, or zero where `later` is not after it.
pub open spec fn elapsed(later: Instant, earlier: Instant) -> Duration {
    if later >= earlier {
        (later - earlier) as Duration
    } else {
        0
    }
}

/// Returns the time from `earlier` to `later`, saturating at zero.
pub fn saturating_duration_since(later: Instant, earlier: Instant) -> (d: Duration)
    ensures
        d == elapsed(later, earlier),
{
    if later >= earlier {
        later - earlier
    } else {
        0
    }
}

/// The time between two instants is what leads from the earlier to the later, and none
/// where the later is not later.
pub proof fn elapsed_time_leads_to_the_later(later: Instant, earlier: Instant)
    ensures
        later >= earlier ==> earlier + elapsed(later, earlier) == later,
        elapsed(later, earlier) == 0 <==> later <= earlier,
{
}

} // verus!
