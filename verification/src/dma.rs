//! The channels that copy memory without the processor.

use crate::bits::{le16, le32, read_bytes, read_u16, Bits};
use crate::interrupts::requested;
use crate::memory::MemoryBus;
use crate::system::{
    note_read, note_write, void_read, void_write, System, SystemState, VoidAccess,
};
use vstd::prelude::*;

verus! {

/// A channel: where it copies from and to, how many units are to be copied, and
/// whether the occasion that it waits for has been used already.
#[derive(Clone, Copy)]
pub struct DmaChannel {
    pub index: usize,
    pub source: u32,
    pub target: u32,
    pub count: u32,
    pub handled: bool,
}

impl DmaChannel {
    /// Whether the channel has registers and a count that they can hold.
    pub open spec fn well_formed(self) -> bool {
        self.index < 4 && self.count <= 0x10000
    }

    /// Where the registers of the channel start.
    pub open spec fn offset(self) -> int {
        0xb0 + 0xc * self.index
    }

    /// The number of units that the count register stands for. A count of zero
    /// is the largest one, which only the last channel has 16 bits for.
    pub open spec fn units(self, io: Seq<u8>) -> u32 {
        let count = le16(io, self.offset() + 8) as u32;
        if self.index == 3 {
            if count == 0 { 0x10000 } else { count }
        } else {
            if count == 0 { 0x4000 } else { count & 0x3ff }
        }
    }

    /// The channel after it has been switched on.
    pub open spec fn started(self, io: Seq<u8>) -> DmaChannel {
        DmaChannel {
            source: le32(io, self.offset()) & 0xfff_ffff,
            target: le32(io, self.offset() + 4) & 0xfff_ffff,
            count: self.units(io),
            handled: false,
            ..self
        }
    }

    /// A channel that has not been switched on.
    pub fn new(index: usize) -> (channel: DmaChannel)
        ensures
            channel == (DmaChannel { index, source: 0, target: 0, count: 0, handled: false }),
    {
        DmaChannel { index, source: 0, target: 0, count: 0, handled: false }
    }

    fn register_offset(&self) -> (r: usize)
        requires
            self.index < 4,
        ensures
            r == self.offset(),
            r <= 0xd4,
    {
        0xb0 + 0xc * self.index
    }

    fn load_count(&mut self, io: &[u8; 0x400])
        requires
            old(self).index < 4,
        ensures
            *final(self) == (DmaChannel { count: old(self).units(io@), ..*old(self) }),
            final(self).count <= 0x10000,
    {
        let count: u32 = read_u16(io, self.register_offset() + 8) as u32;
        proof {
            lemma_units(*self, io@);
        }
        self.count = if self.index == 3 {
            if count == 0 { 0x10000 } else { count }
        } else {
            if count == 0 { 0x4000 } else { count & 0x3ff }
        };
    }

    /// Switches the channel on: takes the addresses and the count from its
    /// registers.
    pub(crate) fn start(&mut self, io: &[u8; 0x400])
        requires
            old(self).index < 4,
        ensures
            *final(self) == old(self).started(io@),
            final(self).well_formed(),
    {
        let offset: usize = self.register_offset();
        self.source = read_bytes(io, offset as u32) & 0xfff_ffff;
        self.target = read_bytes(io, offset as u32 + 4) & 0xfff_ffff;
        self.load_count(io);
        self.handled = false;
    }
}

/// The distance between two units, where its kind stands at bit `shift` of the
/// control register: forwards, backwards or none.
pub open spec fn increment(control: u16, shift: u16) -> i32 {
    let size = if control.has_bit(10) { 4i32 } else { 2i32 };
    let kind = (control >> shift) & 0b11;
    if kind == 1 {
        (-size) as i32
    } else if kind == 2 {
        0
    } else {
        size
    }
}

/// An address moved on by a number of steps, modulo the address space.
pub open spec fn moved(address: u32, step: i32, count: nat) -> u32 {
    ((address + count * step) % 0x1_0000_0000) as u32
}

/// One step more moves an address on by one step.
pub(crate) proof fn lemma_moved(address: u32, step: i32, count: nat)
    ensures
        moved(address, step, 0) == address,
        moved(address, step, count + 1) == moved(address, step, count).wrapping_add_signed(step),
{
    let place = address + count * step;
    assert(address + (count + 1) * step == place + step) by (nonlinear_arith)
        requires
            place == address + count * step,
    ;
    assert(0 * step == 0) by (nonlinear_arith);
    vstd::arithmetic::div_mod::lemma_add_mod_noop(place, step as int, 0x1_0000_0000);
    vstd::arithmetic::div_mod::lemma_mod_bound(place, 0x1_0000_0000);
    let next = place % 0x1_0000_0000 + step;
    if next < 0 {
        vstd::arithmetic::div_mod::lemma_mod_add_multiples_vanish(next, 0x1_0000_0000);
    } else if next >= 0x1_0000_0000 {
        vstd::arithmetic::div_mod::lemma_mod_sub_multiples_vanish(next, 0x1_0000_0000);
    }
}

/// The number of bytes of a unit.
pub open spec fn unit_size(control: u16) -> u8 {
    if control.has_bit(10) { 4 } else { 2 }
}

impl DmaChannel {
    /// The control register of the channel.
    pub open spec fn control(self, io: Seq<u8>) -> u16 {
        le16(io, self.offset() + 0xa)
    }

    /// Whether the occasion that the channel waits for is there: the first line
    /// beyond the picture, the end of a line, or none.
    pub open spec fn is_due(self, state: SystemState) -> bool {
        let timing = (self.control(state.io) >> 12) & 0b11;
        if timing == 1 {
            state.ppu.line == 160
        } else if timing == 2 {
            state.ppu.hblank
        } else if timing == 3 {
            self.index == 3 && state.ppu.hblank
        } else {
            true
        }
    }

    /// Whether the channel copies now.
    pub open spec fn copies(self, state: SystemState) -> bool {
        self.control(state.io).has_bit(15) && self.is_due(state) && !self.handled
    }

    /// Where the unit with this number is read.
    pub open spec fn source_of(self, control: u16, unit: nat) -> u32 {
        moved(self.source, increment(control, 7), unit)
    }

    /// Where the unit with this number is written.
    pub open spec fn target_of(self, control: u16, unit: nat) -> u32 {
        moved(self.target, increment(control, 5), unit)
    }

    /// The state after the first `count` units have been copied.
    pub open spec fn copied(self, state: SystemState, control: u16, count: nat) -> SystemState
        decreases count,
    {
        if count == 0 {
            state
        } else {
            let before = self.copied(state, control, (count - 1) as nat);
            before.stored(
                self.target_of(control, (count - 1) as nat),
                before.word_at(self.source_of(control, (count - 1) as nat)),
                unit_size(control),
            )
        }
    }

    /// Whether a unit can be copied.
    pub open spec fn unit_accessible(self, state: SystemState, unit: int) -> bool {
        let control = self.control(state.io);
        state.readable(self.source_of(control, unit as nat)) && state.writable(
            self.target_of(control, unit as nat),
            unit_size(control),
        )
    }

    /// Whether the channel can be run: only the last channel has the timing of
    /// its own, none waits for the cartridge, and every unit lies where it can
    /// be read and written.
    pub open spec fn runnable(self, state: SystemState) -> bool {
        let control = self.control(state.io);
        &&& control.has_bit(15) && (control >> 12) & 0b11 == 3 ==> self.index == 3
        &&& self.copies(state) ==> !control.has_bit(11) && forall|i: int|
            0 <= i < self.count ==> #[trigger] self.unit_accessible(state, i)
    }

    /// The state after the channel has been run, the channel itself not being
    /// part of it. A channel that does not repeat is switched off, and one that
    /// is asked to raises its interrupt.
    pub open spec fn state_after(self, state: SystemState) -> SystemState {
        if self.copies(state) {
            let control = self.control(state.io);
            let copied = self.copied(state, control, self.count as nat);
            let ended = if control.has_bit(9) {
                copied
            } else {
                SystemState {
                    io: copied.io.update(
                        self.offset() + 0xb,
                        (control.with_bit(15, false) >> 8) as u8,
                    ),
                    ..copied
                }
            };
            if control.has_bit(14) {
                SystemState {
                    interrupts: requested(ended.interrupts, (self.index + 8) as u32),
                    ..ended
                }
            } else {
                ended
            }
        } else {
            state
        }
    }

    /// The channel after it has been run. A channel that repeats takes its count
    /// anew, and its target too where the control register says so.
    pub open spec fn channel_after(self, state: SystemState) -> DmaChannel {
        let control = self.control(state.io);
        if self.copies(state) {
            let copied = self.copied(state, control, self.count as nat);
            DmaChannel {
                source: self.source_of(control, self.count as nat),
                target: if control.has_bit(9) && (control >> 5) & 0b11 == 0b11 {
                    self.target
                } else {
                    self.target_of(control, self.count as nat)
                },
                count: if control.has_bit(9) { self.units(copied.io) } else { self.count },
                handled: true,
                ..self
            }
        } else if control.has_bit(15) && !self.is_due(state) {
            DmaChannel { handled: false, ..self }
        } else {
            self
        }
    }

    /// The number of cycles that running the channel takes.
    pub open spec fn cycles(self, state: SystemState) -> int {
        if self.copies(state) { self.channel_after(state).count * 2 + 2 } else { 0 }
    }

    /// The void accesses that copying the first `count` units makes.
    pub open spec fn unit_voids(self, control: u16, count: nat) -> Seq<VoidAccess>
        decreases count,
    {
        if count == 0 {
            Seq::empty()
        } else {
            self.unit_voids(control, (count - 1) as nat) + void_read(
                self.source_of(control, (count - 1) as nat),
            ) + void_write(self.target_of(control, (count - 1) as nat), unit_size(control))
        }
    }

    /// The void accesses that running the channel makes.
    pub open spec fn void_accesses(self, state: SystemState) -> Seq<VoidAccess> {
        if self.copies(state) {
            self.unit_voids(self.control(state.io), self.count as nat)
        } else {
            Seq::empty()
        }
    }

    fn due(&self, sys: &System) -> (r: bool)
        requires
            self.index < 4,
        ensures
            r == self.is_due(sys@),
    {
        let control: u16 = read_u16(&sys.io, self.register_offset() + 0xa);
        match (control >> 12) & 0b11 {
            1 => sys.ppu.line == 160,
            2 => sys.ppu.hblank,
            3 => self.index == 3 && sys.ppu.hblank,
            _ => true,
        }
    }

    /// Runs the channel if it is switched on and its occasion has come, and
    /// returns the number of cycles that it has taken.
    pub fn dma(&mut self, sys: &mut System) -> (cycles: u32)
        requires
            old(sys)@.well_formed(),
            old(self).well_formed(),
            old(self).runnable(old(sys)@),
        ensures
            final(sys)@.well_formed(),
            final(self).well_formed(),
            final(sys)@ == old(self).state_after(old(sys)@),
            *final(self) == old(self).channel_after(old(sys)@),
            cycles == old(self).cycles(old(sys)@),
    {
        let offset: usize = self.register_offset();
        let mut control: u16 = read_u16(&sys.io, offset + 0xa);
        if !control.bit(15) {
            return 0;
        }
        if !self.due(sys) {
            self.handled = false;
            return 0;
        }
        if self.handled {
            return 0;
        }
        let ghost channel = *self;
        let ghost state = sys@;
        let ghost selection = control;
        self.handled = true;
        let size: u8 = if control.bit(10) { 4 } else { 2 };
        let old_target: u32 = self.target;
        let source_increment: i32 = get_increment(control, 7);
        let target_increment: i32 = get_increment(control, 5);
        let count: u32 = self.count;
        proof {
            lemma_moved(channel.source, source_increment, 0);
            lemma_moved(channel.target, target_increment, 0);
        }
        let mut i: u32 = 0;
        while i < count
            invariant
                i <= count,
                count == channel.count,
                control == channel.control(state.io),
                size == unit_size(control),
                source_increment == increment(control, 7),
                target_increment == increment(control, 5),
                sys@.well_formed(),
                forall|j: int|
                    0 <= j < count ==> #[trigger] channel.unit_accessible(state, j),
                sys@ == channel.copied(state, control, i as nat),
                sys@.bios == state.bios,
                sys@.rom == state.rom,
                *self == (DmaChannel {
                    source: channel.source_of(control, i as nat),
                    target: channel.target_of(control, i as nat),
                    handled: true,
                    ..channel
                }),
            decreases count - i,
        {
            assert(channel.unit_accessible(state, i as int));
            let ghost before = sys@;
            let value: u32 = sys.read(self.source);
            sys.write(self.target, value, size);
            proof {
                crate::system::lemma_stored(before, self.target, value, size);
            }
            proof {
                lemma_moved(channel.source, source_increment, i as nat);
                lemma_moved(channel.target, target_increment, i as nat);
            }
            self.source = self.source.wrapping_add_signed(source_increment);
            self.target = self.target.wrapping_add_signed(target_increment);
            i += 1;
        }
        if control.bit(9) {
            self.load_count(&sys.io);
            if (control >> 5) & 0b11 == 0b11 {
                self.target = old_target;
            }
        } else {
            control.set_bit(15, false);
            sys.io[offset + 0xb] = (control >> 8) as u8;
        }
        proof {
            crate::bits::set_bit_is_local_u16(selection, 15, false, 14);
        }
        if control.bit(14) {
            sys.interrupts.interrupt((self.index + 8) as u32);
        }
        self.count * 2 + 2
    }

    /// Lists the void accesses that running the channel makes.
    pub fn note_accesses(&self, sys: &System, void: &mut Vec<VoidAccess>)
        requires
            sys@.well_formed(),
            self.well_formed(),
        ensures
            final(void)@ == old(void)@ + self.void_accesses(sys@),
    {
        let control: u16 = read_u16(&sys.io, self.register_offset() + 0xa);
        if !control.bit(15) || !self.due(sys) || self.handled {
            assert(void@ =~= old(void)@ + self.void_accesses(sys@));
            return;
        }
        let size: u8 = if control.bit(10) { 4 } else { 2 };
        let source_increment: i32 = get_increment(control, 7);
        let target_increment: i32 = get_increment(control, 5);
        let mut source: u32 = self.source;
        let mut target: u32 = self.target;
        proof {
            lemma_moved(source, source_increment, 0);
            lemma_moved(target, target_increment, 0);
        }
        let mut i: u32 = 0;
        assert(void@ =~= old(void)@ + self.unit_voids(control, 0));
        while i < self.count
            invariant
                i <= self.count,
                size == unit_size(control),
                source_increment == increment(control, 7),
                target_increment == increment(control, 5),
                source == self.source_of(control, i as nat),
                target == self.target_of(control, i as nat),
                void@ == old(void)@ + self.unit_voids(control, i as nat),
            decreases self.count - i,
        {
            note_read(source, void);
            note_write(target, size, void);
            proof {
                lemma_moved(self.source, source_increment, i as nat);
                lemma_moved(self.target, target_increment, i as nat);
            }
            source = source.wrapping_add_signed(source_increment);
            target = target.wrapping_add_signed(target_increment);
            i += 1;
            assert(void@ =~= old(void)@ + self.unit_voids(control, i as nat));
        }
    }

    /// Tells whether the channel can be run.
    pub fn can_run(&self, sys: &System) -> (r: bool)
        requires
            sys@.well_formed(),
            self.well_formed(),
        ensures
            r == self.runnable(sys@),
    {
        let control: u16 = read_u16(&sys.io, self.register_offset() + 0xa);
        if !control.bit(15) {
            return true;
        }
        if (control >> 12) & 0b11 == 3 && self.index != 3 {
            return false;
        }
        if !self.due(sys) || self.handled {
            return true;
        }
        if control.bit(11) {
            return false;
        }
        let size: u8 = if control.bit(10) { 4 } else { 2 };
        let source_increment: i32 = get_increment(control, 7);
        let target_increment: i32 = get_increment(control, 5);
        let mut source: u32 = self.source;
        let mut target: u32 = self.target;
        proof {
            lemma_moved(source, source_increment, 0);
            lemma_moved(target, target_increment, 0);
        }
        let mut i: u32 = 0;
        while i < self.count
            invariant
                i <= self.count,
                sys@.well_formed(),
                control == self.control(sys@.io),
                size == unit_size(control),
                source_increment == increment(control, 7),
                target_increment == increment(control, 5),
                source == self.source_of(control, i as nat),
                target == self.target_of(control, i as nat),
                forall|j: int| 0 <= j < i ==> #[trigger] self.unit_accessible(sys@, j),
                self.copies(sys@),
            decreases self.count - i,
        {
            if !sys.can_read(source) || !sys.can_write(target, size) {
                assert(!self.unit_accessible(sys@, i as int));
                return false;
            }
            proof {
                lemma_moved(self.source, source_increment, i as nat);
                lemma_moved(self.target, target_increment, i as nat);
            }
            source = source.wrapping_add_signed(source_increment);
            target = target.wrapping_add_signed(target_increment);
            i += 1;
        }
        true
    }
}

fn get_increment(control: u16, shift: u16) -> (r: i32)
    requires
        shift < 16,
    ensures
        r == increment(control, shift),
{
    let size: i32 = if control.bit(10) { 4 } else { 2 };
    match (control >> shift) & 0b11 {
        1 => -size,
        2 => 0,
        _ => size,
    }
}

/// Copying keeps the machine well-formed.
pub(crate) proof fn lemma_copied(
    channel: DmaChannel,
    state: SystemState,
    control: u16,
    count: nat,
)
    requires
        state.well_formed(),
    ensures
        channel.copied(state, control, count).well_formed(),
    decreases count,
{
    if count > 0 {
        lemma_copied(channel, state, control, (count - 1) as nat);
        let before = channel.copied(state, control, (count - 1) as nat);
        crate::system::lemma_stored(
            before,
            channel.target_of(control, (count - 1) as nat),
            before.word_at(channel.source_of(control, (count - 1) as nat)),
            unit_size(control),
        );
    }
}

/// A count register stands for a bounded number of units.
pub(crate) proof fn lemma_units(channel: DmaChannel, io: Seq<u8>)
    ensures
        channel.units(io) <= 0x10000,
{
    let count = le16(io, channel.offset() + 8) as u32;
    assert(count & 0x3ff <= 0x3ff) by (bit_vector);
}

} // verus!
