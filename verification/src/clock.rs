//! How far the devices have come behind the processor.

use crate::ppu::model::{LINE_CYCLES, TOTAL_LINES};
use crate::system::{FRAME_CYCLES, SYNC_CYCLE_DURATION};
use vstd::prelude::*;

verus! {

/// The machine cycle that the devices see next, and the one that the processor
/// has reached; both are counted modulo their range.
pub struct Clock {
    pub cycle: u32,
    pub reached: u32,
}

impl Clock {
    /// The number of cycles that the devices are behind.
    pub open spec fn behind(self) -> u32 {
        self.reached.wrapping_sub(self.cycle)
    }

    /// A clock at the start of the machine.
    pub fn new() -> (clock: Clock)
        ensures
            clock == (Clock { cycle: 0, reached: 0 }),
    {
        Clock { cycle: 0, reached: 0 }
    }

    /// Counts the cycles of an instruction, given the count of the processor
    /// before and after it.
    pub fn instruction_done(&mut self, before: u16, after: u16)
        ensures
            *final(self) == (Clock {
                reached: old(self).reached.wrapping_add(after.wrapping_sub(before) as u32),
                ..*old(self)
            }),
    {
        self.reached = self.reached.wrapping_add(after.wrapping_sub(before) as u32);
    }

    /// Counts cycles in which the processor stood still.
    pub fn stalled(&mut self, cycles: u32)
        ensures
            *final(self) == (Clock {
                reached: old(self).reached.wrapping_add(cycles),
                ..*old(self)
            }),
    {
        self.reached = self.reached.wrapping_add(cycles);
    }

    /// Tells whether the devices are behind the processor.
    pub fn is_behind(&self) -> (r: bool)
        ensures
            r == (self.behind() != 0),
    {
        self.cycle != self.reached
    }

    /// Tells whether a picture's time is over with the current cycle.
    pub fn is_frame(&self) -> (r: bool)
        ensures
            r == (self.cycle % FRAME_CYCLES == 0),
    {
        self.cycle % FRAME_CYCLES == 0
    }

    /// Moves the devices on by one cycle.
    pub fn advance(&mut self)
        ensures
            *final(self) == (Clock { cycle: old(self).cycle.wrapping_add(1), ..*old(self) }),
    {
        self.cycle = self.cycle.wrapping_add(1);
    }
}

/// The number of nanoseconds that are left of a picture's time, or `None` where
/// it has been used up.
pub fn picture_time_left(elapsed: u64) -> (r: Option<u32>)
    ensures
        r == (if elapsed < SYNC_CYCLE_DURATION {
            Some((SYNC_CYCLE_DURATION - elapsed) as u32)
        } else {
            None
        }),
{
    if elapsed < SYNC_CYCLE_DURATION as u64 {
        Some(SYNC_CYCLE_DURATION - elapsed as u32)
    } else {
        None
    }
}

/// A picture takes the cycles of all its lines.
pub proof fn picture_takes_all_lines()
    ensures
        FRAME_CYCLES == LINE_CYCLES * TOTAL_LINES,
{
}

/// The devices catch up by one cycle at a time, and cycles that are counted
/// while they are behind are added to those that are left.
pub proof fn devices_catch_up(clock: Clock, cycles: u32)
    ensures
        clock.behind() > 0 ==> (Clock {
            cycle: clock.cycle.wrapping_add(1),
            ..clock
        }).behind() == clock.behind() - 1,
        clock.behind() + cycles <= u32::MAX ==> (Clock {
            reached: clock.reached.wrapping_add(cycles),
            ..clock
        }).behind() == clock.behind() + cycles,
{
}

} // verus!
