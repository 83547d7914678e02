use vstd::prelude::*;

verus! {

/// Every how many game ticks entities regain health.
pub const HEALTH_REGEN_TICKS: u32 = 2;

/// The game tick counter after one more tick, and whether health regenerates
/// on this tick: it does when the counter reaches the regeneration period,
/// which starts the count again.
pub open spec fn tick_after(count: u32) -> (u32, bool) {
    if count + 1 == HEALTH_REGEN_TICKS {
        (0, true)
    } else {
        ((count + 1) as u32, false)
    }
}

/// Counts one game tick and says whether health regenerates on it.
pub fn tick_step(count: u32) -> (result: (u32, bool))
    requires
        count < u32::MAX,
    ensures
        result == tick_after(count),
{
    let next = count + 1;
    if next == HEALTH_REGEN_TICKS {
        (0, true)
    } else {
        (next, false)
    }
}

/// From a fresh count, health regenerates on every second tick and on no
/// other: two ticks bring the count back with exactly one regeneration.
pub proof fn law_regen_every_second_tick(count: u32)
    requires
        count < HEALTH_REGEN_TICKS,
    ensures
        tick_after(tick_after(count).0).0 == count,
        tick_after(count).1 != tick_after(tick_after(count).0).1,
{
}

} // verus!
