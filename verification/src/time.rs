//! The PIT timebase: reload programming values and the monotonic tick count
//! the timer interrupt advances.

use vstd::prelude::*;

verus! {

/// The PIT input frequency in Hz.
pub const PIT_FREQUENCY: u64 = 1193182;

/// The timebase: the reload value programmed into the timer and the ticks
/// counted since boot.
pub struct Pit {
    /// Ticks counted since boot.
    pub tick_count: u64,
    /// The reload value; 0 stands for the full 65536 divisor.
    pub reload: u64,
}

impl Pit {
    /// A timebase that has not ticked, with the divisor `reload` selects.
    pub fn new(reload: u64) -> (r: Pit)
        ensures
            r.tick_count == 0,
            r.reload == reload,
    {
        Pit { tick_count: 0, reload }
    }

    /// Resets the counter and returns the two reload bytes, low then high,
    /// that the timer port takes.
    pub fn set_pit_tick_count(&mut self, count: u64) -> (r: (u8, u8))
        ensures
            final(self).tick_count == count,
            final(self).reload == old(self).reload,
            r.0 == count as u8,
            r.1 == (count >> 8) as u8,
    {
        self.tick_count = count;
        #[verifier::truncate]
        let lo = count as u8;
        #[verifier::truncate]
        let hi = (count >> 8) as u8;
        (lo, hi)
    }

    /// One timer interrupt: the counter advances, wrapping at the top.
    pub fn tick(&mut self)
        ensures
            final(self).tick_count == (if old(self).tick_count == u64::MAX {
                0u64
            } else {
                (old(self).tick_count + 1) as u64
            }),
            final(self).reload == old(self).reload,
    {
        if self.tick_count == u64::MAX {
            self.tick_count = 0;
        } else {
            self.tick_count = self.tick_count + 1;
        }
    }

    /// Ticks counted since boot.
    pub fn get_pit_tick_count(&self) -> (r: u64)
        ensures
            r == self.tick_count,
    {
        self.tick_count
    }
}

} // verus!
