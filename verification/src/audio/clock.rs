//! The monotonic clock that capture times are measured on.
//!
//! The process-wide epoch belongs to PocketStation Core and is shared by capture,
//! runtime and endpoint workers. All measurements are nanoseconds since that epoch,
//! never wall-clock time.
use vstd::prelude::*;

use pocketstation::timing::monotonic_timestamp_ns;

verus! {

/// Whether Core's clock can have shown this reading.
pub open spec fn clock_showed(ns: u64) -> bool {
    call_ensures(monotonic_timestamp_ns, (), ns) && ns > 0
}

/// Nanoseconds since the epoch of the process, as Core's clock shows them. Zero stands
/// for a missing timestamp and is never returned.
pub fn monotonic_ns() -> (ns: u64)
    ensures
        clock_showed(ns),
{
    monotonic_timestamp_ns()
}

} // verus!
