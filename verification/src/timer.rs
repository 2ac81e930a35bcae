//! The four hardware timers.

use crate::bits::{le16, le32, read_bytes, read_u16, Bits};
use crate::interrupts::{requested, Interrupts};
use vstd::prelude::*;

verus! {

/// One timer: two bytes with its reload value and two with its control, and the
/// count it has reached.
#[derive(Clone, Copy)]
pub struct Timer {
    pub registers: [u8; 4],
    pub current: u16,
}

/// The timers, the first of which raises the interrupt with the number 3.
pub struct Timers {
    pub timers: [Timer; 4],
}

/// What a timer holds.
#[verifier::ext_equal]
pub struct TimerState {
    pub registers: Seq<u8>,
    pub current: u16,
}

impl View for Timer {
    type V = TimerState;

    open spec fn view(&self) -> TimerState {
        TimerState { registers: self.registers@, current: self.current }
    }
}

impl View for Timers {
    type V = Seq<TimerState>;

    open spec fn view(&self) -> Seq<TimerState> {
        Seq::new(4, |i: int| self.timers@[i]@)
    }
}

impl TimerState {
    /// The control byte.
    pub open spec fn control(self) -> u8 {
        self.registers[2]
    }

    /// The value that the count starts from again after an overflow.
    pub open spec fn reload(self) -> u16 {
        le16(self.registers, 0)
    }

    /// The number of machine cycles between two counts.
    pub open spec fn divider(self) -> u32 {
        let selection = self.control() & 3;
        if selection == 0 {
            1
        } else if selection == 1 {
            64
        } else if selection == 2 {
            256
        } else {
            1024
        }
    }

    /// Whether the timer counts in the machine cycle with this number.
    pub open spec fn counts(self, cycle: u32) -> bool {
        self.control().has_bit(7) && cycle % self.divider() == 0
    }

    /// Whether the count runs over in the machine cycle with this number.
    pub open spec fn overflows(self, cycle: u32) -> bool {
        self.counts(cycle) && self.current == 0xffff
    }

    /// Whether the timer asks for its interrupt in the machine cycle with this
    /// number.
    pub open spec fn raises(self, cycle: u32) -> bool {
        self.overflows(cycle) && self.control().has_bit(6)
    }

    /// The timer after the machine cycle with this number.
    pub open spec fn stepped(self, cycle: u32) -> TimerState {
        TimerState {
            current: if self.overflows(cycle) {
                self.reload()
            } else if self.counts(cycle) {
                (self.current + 1) as u16
            } else {
                self.current
            },
            ..self
        }
    }

    /// The word that the timer shows: the count in place of the reload value.
    pub open spec fn shown(self) -> u32 {
        le32(self.registers, 0) & 0xffff_0000 | (self.current as u32)
    }

    /// The timer after a byte has been written to one of its registers. When
    /// bit 6 of the last register becomes set, the count starts from the
    /// reload value.
    pub open spec fn written(self, register: int, value: u8) -> TimerState {
        TimerState {
            registers: self.registers.update(register, value),
            current: if register == 3 && !self.registers[3].has_bit(6) && value.has_bit(6) {
                self.reload()
            } else {
                self.current
            },
        }
    }
}

/// The interrupt registers after the first `count` timers have made their
/// requests in the machine cycle with this number.
pub open spec fn timer_requests(
    timers: Seq<TimerState>,
    registers: u32,
    cycle: u32,
    count: nat,
) -> u32
    decreases count,
{
    if count == 0 {
        registers
    } else {
        let before = timer_requests(timers, registers, cycle, (count - 1) as nat);
        if timers[count - 1].raises(cycle) {
            requested(before, (3 + count - 1) as u32)
        } else {
            before
        }
    }
}

/// The number of the timer that a register address belongs to.
fn timer_index(address: u32) -> (index: usize)
    requires
        0x100 <= address < 0x110,
    ensures
        index == (address - 0x100) / 4,
        index < 4,
{
    ((address - 0x100) / 4) as usize
}

impl Default for Timers {
    fn default() -> (timers: Timers)
        ensures
            timers@ == Seq::new(
                4,
                |i: int| (TimerState { registers: Seq::new(4, |j: int| 0u8), current: 0 }),
            ),
    {
        let timer = Timer { registers: [0; 4], current: 0 };
        let timers = Timers { timers: [timer; 4] };
        assert(timer@.registers =~= Seq::new(4, |j: int| 0u8));
        timers
    }
}

impl Timers {
    /// Lets every timer see the machine cycle with this number.
    pub fn step(&mut self, interrupts: &mut Interrupts, cycle: u32)
        ensures
            final(self)@ == old(self)@.map_values(|timer: TimerState| timer.stepped(cycle)),
            final(interrupts).0 == timer_requests(old(self)@, old(interrupts).0, cycle, 4),
    {
        let ghost before = self@;
        let mut i: usize = 0;
        while i < 4
            invariant
                i <= 4,
                before == old(self)@,
                forall|j: int| 0 <= j < i ==> (#[trigger] self@[j]) == before[j].stepped(cycle),
                forall|j: int| i <= j < 4 ==> (#[trigger] self@[j]) == before[j],
                interrupts.0 == timer_requests(before, old(interrupts).0, cycle, i as nat),
            decreases 4 - i,
        {
            let ghost previous = self@;
            let ghost timer = previous[i as int];
            assert(timer == before[i as int]);
            let control: u8 = self.timers[i].registers[2];
            let divider: u32 = match control & 3 {
                0 => 1,
                1 => 64,
                2 => 256,
                _ => 1024,
            };
            if control.bit(7) && cycle % divider == 0 {
                let current: u16 = self.timers[i].current.wrapping_add(1);
                self.timers[i].current = current;
                if current == 0 {
                    self.timers[i].current = read_u16(&self.timers[i].registers, 0);
                    if control.bit(6) {
                        interrupts.interrupt(3 + i as u32);
                    }
                }
            }
            assert(self@ =~= previous.update(i as int, timer.stepped(cycle)));
            i += 1;
        }
        assert(self@ =~= before.map_values(|timer: TimerState| timer.stepped(cycle)));
    }

    /// Reads the word that the timer at this address shows.
    pub fn read_register(&self, address: u32) -> (r: u32)
        requires
            0x100 <= address < 0x110,
        ensures
            r == self@[(address - 0x100) / 4].shown(),
    {
        let timer = self.timers[timer_index(address)];
        read_bytes(&timer.registers, 0) & 0xffff_0000 | (timer.current as u32)
    }

    /// Writes one byte of a timer's registers.
    pub fn write_register(&mut self, address: u32, value: u8)
        requires
            0x100 <= address < 0x110,
        ensures
            final(self)@ == old(self)@.update(
                (address - 0x100) / 4,
                old(self)@[(address - 0x100) / 4].written((address % 4) as int, value),
            ),
    {
        let i: usize = timer_index(address);
        let index: usize = (address % 4) as usize;
        let ghost before = self@;
        if index == 3 && !self.timers[i].registers[index].bit(6) && value.bit(6) {
            self.timers[i].current = read_u16(&self.timers[i].registers, 0);
        }
        self.timers[i].registers[index] = value;
        assert(self@[i as int] =~= before[i as int].written(index as int, value));
        assert(self@ =~= before.update(i as int, before[i as int].written(index as int, value)));
    }
}

} // verus!
