//! How the driver paces instructions, timer ticks and rest.

use vstd::prelude::*;

verus! {

/// Instructions carried out between two ticks of the timers.
pub const INSTRUCTIONS_PER_FRAME: usize = 12;

/// Nanoseconds in the second that a run of sixty frames is given.
pub const NANOS_PER_SECOND: u128 = 1_000_000_000;

/// How long to rest after a frame that took `elapsed` nanoseconds: a
/// sixtieth of what is left of a second.
pub fn frame_sleep_nanos(elapsed: u128) -> (nanos: u32)
    requires
        elapsed <= NANOS_PER_SECOND,
    ensures
        nanos == (NANOS_PER_SECOND - elapsed) / 60,
{
    ((NANOS_PER_SECOND - elapsed) / 60) as u32
}

} // verus!
