//! The timer tick counter and the wraparound-safe elapsed-time test that
//! applications use for frame pacing.
use vstd::prelude::*;

verus! {

/// Number of distinct tick values.
pub open spec fn tick_modulus() -> int {
    0x1_0000_0000
}

/// Ticks that have passed from `last` to `current`, counting across the
/// point where the counter wraps to zero.
pub open spec fn ticks_between(last: u32, current: u32) -> int {
    (current as int - last as int) % tick_modulus()
}

/// Whether at least `threshold` ticks have passed from `last` to `current`.
/// Never compares the raw values: the counter wraps around.
pub fn ticks_elapsed(last: u32, current: u32, threshold: u32) -> (r: bool)
    ensures
        r == (ticks_between(last, current) >= threshold),
{
    current.wrapping_sub(last) >= threshold
}

/// Wraparound: whenever `current` lies `n` ticks after `last` (with fewer than
/// a full cycle in between), the elapsed count is exactly `n`, whether or not
/// the counter wrapped in between.
pub proof fn lemma_tick_wraparound(last: u32, n: int)
    requires
        0 <= n < tick_modulus(),
    ensures
        ticks_between(last, ((last + n) % tick_modulus()) as u32) == n,
{
}

/// A counter of timer interrupts, advanced once per period.
pub struct TickCounter {
    count: u32,
}

impl TickCounter {
    pub closed spec fn ticks(&self) -> u32 {
        self.count
    }

    pub fn new() -> (r: Self)
        ensures
            r.ticks() == 0,
    {
        TickCounter { count: 0 }
    }

    /// One timer period passed: advance, wrapping to zero after the maximum.
    pub fn tick(&mut self)
        ensures
            final(self).ticks() == (old(self).ticks() + 1) % tick_modulus(),
    {
        self.count = self.count.wrapping_add(1);
    }

    pub fn get_ticks(&self) -> (r: u32)
        ensures
            r == self.ticks(),
    {
        self.count
    }
}

} // verus!
