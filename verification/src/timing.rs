//! The pause between two frames.

use vstd::prelude::*;

verus! {

/// The frame rate used when none is asked for.
pub const DEFAULT_FRAMES_PER_SECOND: u64 = 30;

/// The milliseconds to sleep between frames for a target rate, rounded down.
pub open spec fn interval_millis(frames_per_second: nat) -> nat {
    1000nat / frames_per_second
}

/// The milliseconds to sleep between frames so that about `frames_per_second`
/// frames are shown each second. A rate above 1000 gives no pause at all.
pub fn frame_interval(frames_per_second: u64) -> (millis: u64)
    requires
        frames_per_second > 0,
    ensures
        millis == interval_millis(frames_per_second as nat),
{
    1000 / frames_per_second
}

} // verus!
