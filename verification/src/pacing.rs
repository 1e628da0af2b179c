use vstd::prelude::*;

verus! {

/// The target frame interval in milliseconds (about 30 frames per second).
pub open spec fn target_frame_ms() -> u64 {
    33
}

/// The minimal sleep in milliseconds: an overloaded loop still yields
/// to the scheduler instead of spinning.
pub open spec fn min_sleep_ms() -> u64 {
    1
}

/// Sleep owed after a frame whose render and draw took `elapsed_ms`:
/// the remainder of the 33 ms frame budget, floored at 1 ms, i.e.
/// `max(33 - elapsed_ms, 1)`.
pub open spec fn spec_sleep_ms(elapsed_ms: u64) -> u64 {
    if elapsed_ms < target_frame_ms() {
        (target_frame_ms() - elapsed_ms) as u64
    } else {
        min_sleep_ms()
    }
}

/// Milliseconds to sleep before the next frame.
pub fn sleep_ms_for(elapsed_ms: u64) -> (r: u64)
    ensures
        r == spec_sleep_ms(elapsed_ms),
        elapsed_ms < 33 ==> r == 33 - elapsed_ms,
        elapsed_ms >= 33 ==> r == 1,
        1 <= r <= 33,
{
    if elapsed_ms < 33 {
        33 - elapsed_ms
    } else {
        1
    }
}

} // verus!
