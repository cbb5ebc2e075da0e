//! Elapsed time from a free-running counter that wraps around.

use vstd::prelude::*;

verus! {

/// Ticks between two counter readings `last` and `current`. After a
/// rollover the counter passed its maximum once: the rest of the way up from
/// `last` plus `current`, saturating at `u32::MAX`. Without one, the
/// difference, or zero should the counter seem to have gone back.
pub open spec fn elapsed_between(last: u32, current: u32, rollover: bool) -> u32 {
    if rollover {
        if (u32::MAX - last) + current > u32::MAX {
            u32::MAX
        } else {
            ((u32::MAX - last) + current) as u32
        }
    } else if current >= last {
        (current - last) as u32
    } else {
        0
    }
}

/// Computes `elapsed_between` with saturating arithmetic.
pub fn elapsed_ticks(last: u32, current: u32, rollover: bool) -> (r: u32)
    ensures
        r == elapsed_between(last, current, rollover),
{
    if rollover {
        u32::MAX.saturating_sub(last).saturating_add(current)
    } else {
        current.saturating_sub(last)
    }
}

} // verus!
