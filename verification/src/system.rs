//! The machine around the processor: its memories and devices, and what the
//! addresses of the bus lead to.

use crate::bits::{le32, read_bytes, Bits};
use crate::clock::Clock;
use crate::dma::DmaChannel;
use crate::interrupts::{byte_written, requested, Interrupts};
use crate::keys::{any_held, buttons, buttons_below, keys_of, Key, PressedKeys};
use crate::memory::{mapped, parse_address, MemoryBus, MemoryRegion};
use crate::ppu::model::PpuState;
use crate::ppu::{is_event_of, Ppu, PpuEvent};
use crate::timer::{timer_requests, TimerState, Timers};
use vstd::prelude::*;

verus! {

/// The number of cycles of a picture: 1232 for each of 228 lines.
pub const FRAME_CYCLES: u32 = 1232 * 228;

/// The number of cycles of a second.
pub const CYCLES_PER_SECOND: u32 = 0x100_0000;

/// The number of nanoseconds that a picture takes: a second is shared among the
/// pictures that fit in it.
pub const SYNC_CYCLE_DURATION: u32 = 1_000_000_000 / (CYCLES_PER_SECOND / FRAME_CYCLES);

/// The size of the work memories and the cartridge memory together.
pub const RAM_SIZE: usize = 0x58000;

/// The machine without its processor.
pub struct System {
    pub ram: Vec<u8>,
    pub rom: Vec<u8>,
    pub bios: Vec<u8>,
    pub ppu: Ppu,
    pub pressed_keys: PressedKeys,
    pub io: [u8; 0x400],
    /// Set when the program has asked the processor to wait.
    pub cpu_paused: bool,
    pub interrupts: Interrupts,
    pub timer: Timers,
    pub dma: [DmaChannel; 4],
}

/// What the machine holds.
#[verifier::ext_equal]
pub struct SystemState {
    pub ram: Seq<u8>,
    pub rom: Seq<u8>,
    pub bios: Seq<u8>,
    pub ppu: PpuState,
    pub pressed_keys: Set<Key>,
    pub io: Seq<u8>,
    pub cpu_paused: bool,
    pub interrupts: u32,
    pub timers: Seq<TimerState>,
    pub dma: Seq<DmaChannel>,
}

impl View for System {
    type V = SystemState;

    open spec fn view(&self) -> SystemState {
        SystemState {
            ram: self.ram@,
            rom: self.rom@,
            bios: self.bios@,
            ppu: self.ppu@,
            pressed_keys: self.pressed_keys@,
            io: self.io@,
            cpu_paused: self.cpu_paused,
            interrupts: self.interrupts.0,
            timers: self.timer@,
            dma: self.dma@,
        }
    }
}

/// Whether a byte can be written to an address: not to the two memories that
/// can only be read.
pub open spec fn byte_writable(address: u32) -> bool {
    match mapped(address) {
        Some((region, offset)) => region != MemoryRegion::Bios && region != MemoryRegion::Rom,
        None => true,
    }
}

/// The address of the first byte of an access, which is aligned to its size.
pub open spec fn aligned(address: u32, size: u8) -> u32 {
    address & !((size - 1) as u32)
}

/// An access to an address where nothing is mapped.
#[derive(Debug, Clone, Copy, PartialEq, Eq, Structural)]
pub enum VoidAccess {
    /// A word was read at the address.
    Read(u32),
    /// A byte was written to the address.
    Write(u32),
}

/// The void access that reading a word makes, if it does.
pub open spec fn void_read(address: u32) -> Seq<VoidAccess> {
    let start = address & !3u32;
    if mapped(start) is None { seq![VoidAccess::Read(start)] } else { Seq::empty() }
}

/// The void accesses that writing as many bytes from an address on makes.
pub open spec fn void_bytes(start: u32, count: nat) -> Seq<VoidAccess>
    decreases count,
{
    if count == 0 {
        Seq::empty()
    } else {
        let before = void_bytes(start, (count - 1) as nat);
        let address = (start + count - 1) as u32;
        if mapped(address) is None { before.push(VoidAccess::Write(address)) } else { before }
    }
}

/// The void accesses that writing `size` bytes to an address makes.
pub open spec fn void_write(address: u32, size: u8) -> Seq<VoidAccess> {
    void_bytes(aligned(address, size), size as nat)
}

/// Lists the void access that reading a word makes, if it does.
pub fn note_read(address: u32, void: &mut Vec<VoidAccess>)
    ensures
        final(void)@ == old(void)@ + void_read(address),
{
    let start: u32 = address & !3u32;
    if parse_address(start).is_none() {
        void.push(VoidAccess::Read(start));
    }
    assert(void@ =~= old(void)@ + void_read(address));
}

/// Lists the void accesses that writing `size` bytes makes.
pub fn note_write(address: u32, size: u8, void: &mut Vec<VoidAccess>)
    requires
        1 <= size <= 4,
    ensures
        final(void)@ == old(void)@ + void_write(address, size),
{
    proof {
        lemma_aligned(address, size);
    }
    let start: u32 = address & !(size as u32 - 1);
    let mut i: u8 = 0;
    assert(void@ =~= old(void)@ + void_bytes(start, 0));
    while i < size
        invariant
            i <= size <= 4,
            start + size <= 0x1_0000_0000,
            void@ == old(void)@ + void_bytes(start, i as nat),
        decreases size - i,
    {
        if parse_address(start + i as u32).is_none() {
            void.push(VoidAccess::Write(start + i as u32));
        }
        i += 1;
        assert(void@ =~= old(void)@ + void_bytes(start, i as nat));
    }
}

impl SystemState {
    /// Whether all memories have their sizes and all devices are in a state
    /// that they can be in.
    pub open spec fn well_formed(self) -> bool {
        &&& self.ram.len() == RAM_SIZE
        &&& self.ppu.well_formed()
        &&& self.io.len() == 0x400
        &&& self.timers.len() == 4
        &&& self.dma.len() == 4
        &&& forall|i: int|
            0 <= i < 4 ==> (#[trigger] self.dma[i]).index == i && self.dma[i].well_formed()
    }

    /// Whether a word can be read at the address: the start-up program and the
    /// cartridge may be too short for it.
    pub open spec fn readable(self, address: u32) -> bool {
        match mapped(address & !3u32) {
            Some((region, offset)) => match region {
                MemoryRegion::Bios => offset + 3 < self.bios.len(),
                MemoryRegion::Rom => offset >= self.rom.len() as u32 || offset + 3
                    < self.rom.len(),
                _ => true,
            },
            None => true,
        }
    }

    /// The word at an address. Beyond the end of the cartridge, and where
    /// nothing is mapped, it is zero.
    pub open spec fn word_at(self, address: u32) -> u32 {
        match mapped(address & !3u32) {
            Some((region, offset)) => match region {
                MemoryRegion::Bios => le32(self.bios, offset as int),
                MemoryRegion::Ram => le32(self.ram, offset as int),
                MemoryRegion::PPURegister => self.ppu.register_word(offset),
                MemoryRegion::Palette => le32(self.ppu.palettes, offset as int),
                MemoryRegion::Vram => le32(self.ppu.vram, offset as int),
                MemoryRegion::Rom => if offset >= self.rom.len() as u32 {
                    0
                } else {
                    le32(self.rom, offset as int)
                },
                MemoryRegion::Oam => le32(self.ppu.oam, offset as int),
                MemoryRegion::IO => self.io_word(offset),
            },
            None => 0,
        }
    }

    /// The word at an offset of the device registers.
    pub open spec fn io_word(self, offset: u32) -> u32 {
        if 0x100 <= offset < 0x110 {
            self.timers[(offset - 0x100) / 4].shown()
        } else if offset == 0x130 {
            buttons(self.pressed_keys)
        } else if offset == 0x200 {
            self.interrupts
        } else {
            le32(self.io, offset as int)
        }
    }

    /// The state after a byte has been written to an address.
    pub open spec fn byte_stored(self, address: u32, value: u8) -> SystemState {
        match mapped(address) {
            Some((region, offset)) => match region {
                MemoryRegion::Ram => SystemState {
                    ram: self.ram.update(offset as int, value),
                    ..self
                },
                MemoryRegion::Palette => SystemState {
                    ppu: PpuState {
                        palettes: self.ppu.palettes.update(offset as int, value),
                        ..self.ppu
                    },
                    ..self
                },
                MemoryRegion::Vram => SystemState {
                    ppu: PpuState {
                        vram: self.ppu.vram.update(offset as int, value),
                        ..self.ppu
                    },
                    ..self
                },
                MemoryRegion::Oam => SystemState {
                    ppu: PpuState { oam: self.ppu.oam.update(offset as int, value), ..self.ppu },
                    ..self
                },
                MemoryRegion::PPURegister => SystemState {
                    ppu: self.ppu.register_written(offset, value),
                    ..self
                },
                MemoryRegion::IO => self.io_stored(offset, value),
                MemoryRegion::Bios => self,
                MemoryRegion::Rom => self,
            },
            None => self,
        }
    }

    /// Whether an offset is that of the byte that starts a DMA channel.
    pub open spec fn starts_dma(offset: u32) -> bool {
        offset == 0xbb || offset == 0xc7 || offset == 0xd3 || offset == 0xdf
    }

    /// The state after a byte has been written to an offset of the device
    /// registers.
    pub open spec fn io_stored(self, offset: u32, value: u8) -> SystemState {
        if Self::starts_dma(offset) {
            let index = (offset - 0xbb) / 0xc;
            SystemState {
                dma: if value.has_bit(7) && !self.io[offset as int].has_bit(7) {
                    self.dma.update(index, self.dma[index].started(self.io))
                } else {
                    self.dma
                },
                io: self.io.update(offset as int, value),
                ..self
            }
        } else if 0x100 <= offset < 0x110 {
            let index = (offset - 0x100) / 4;
            SystemState {
                timers: self.timers.update(
                    index,
                    self.timers[index].written((offset % 4) as int, value),
                ),
                ..self
            }
        } else if 0x200 <= offset < 0x204 {
            SystemState { interrupts: byte_written(self.interrupts, offset, value), ..self }
        } else if offset == 0x301 {
            SystemState { cpu_paused: true, ..self }
        } else {
            SystemState { io: self.io.update(offset as int, value), ..self }
        }
    }

    /// Whether the low `size` bytes of a value can be written to an address.
    pub open spec fn writable(self, address: u32, size: u8) -> bool {
        1 <= size <= 4 && forall|i: int|
            0 <= i < size ==> #[trigger] byte_writable((aligned(address, size) + i) as u32)
    }

    /// The state after the low `count` bytes of a value have been written, the
    /// lowest one first, from an address on.
    pub open spec fn bytes_stored(self, start: u32, value: u32, count: nat) -> SystemState
        decreases count,
    {
        if count == 0 {
            self
        } else {
            self.bytes_stored(start, value, (count - 1) as nat).byte_stored(
                (start + count - 1) as u32,
                (value >> ((8 * (count - 1)) as u32)) as u8,
            )
        }
    }

    /// The state after the low `size` bytes of a value have been written to an
    /// address.
    pub open spec fn stored(self, address: u32, value: u32, size: u8) -> SystemState {
        self.bytes_stored(aligned(address, size), value, size as nat)
    }

    /// The state after a DMA channel has been run and put in its place.
    pub open spec fn channel_run(self, channel: DmaChannel) -> SystemState {
        let after = channel.state_after(self);
        SystemState {
            dma: after.dma.update(channel.index as int, channel.channel_after(self)),
            ..after
        }
    }

    /// The state after the first `count` DMA channels have been run, each of
    /// them as it is now.
    pub open spec fn channels_run(self, count: nat) -> SystemState
        decreases count,
    {
        if count == 0 {
            self
        } else {
            self.channels_run((count - 1) as nat).channel_run(self.dma[count - 1])
        }
    }

    /// The number of cycles that the first `count` DMA channels take.
    pub open spec fn channel_cycles(self, count: nat) -> int
        decreases count,
    {
        if count == 0 {
            0
        } else {
            self.channel_cycles((count - 1) as nat) + self.dma[count - 1].cycles(
                self.channels_run((count - 1) as nat),
            )
        }
    }

    /// The void accesses that the first `count` DMA channels make.
    pub open spec fn channel_voids(self, count: nat) -> Seq<VoidAccess>
        decreases count,
    {
        if count == 0 {
            Seq::empty()
        } else {
            self.channel_voids((count - 1) as nat) + self.dma[count - 1].void_accesses(
                self.channels_run((count - 1) as nat),
            )
        }
    }

    /// The state after the picture unit and the timers have seen the machine
    /// cycle with this number.
    pub open spec fn devices_stepped(self, cycle: u32) -> SystemState {
        SystemState {
            ppu: self.ppu.stepped(),
            timers: self.timers.map_values(|timer: TimerState| timer.stepped(cycle)),
            interrupts: timer_requests(
                self.timers,
                self.ppu.requests(self.interrupts),
                cycle,
                4,
            ),
            ..self
        }
    }

    /// Whether a DMA channel can be run after those before it.
    pub open spec fn channel_can_run(self, i: int) -> bool {
        self.dma[i].runnable(self.channels_run(i as nat))
    }
}

/// An aligned access does not run over the end of the address space.
pub(crate) proof fn lemma_aligned(address: u32, size: u8)
    requires
        1 <= size <= 4,
    ensures
        aligned(address, size) + size <= 0x1_0000_0000,
{
    let mask = (size - 1) as u32;
    assert((address & !mask) + mask <= 0xffff_ffff) by (bit_vector);
}

/// Writing a byte keeps the machine well-formed and the memories that can only
/// be read.
pub(crate) proof fn lemma_byte_stored(state: SystemState, address: u32, value: u8)
    requires
        state.well_formed(),
    ensures
        state.byte_stored(address, value).well_formed(),
        state.byte_stored(address, value).bios == state.bios,
        state.byte_stored(address, value).rom == state.rom,
{
    if mapped(address) is Some {
        crate::memory::mapped_offset_in_region(address);
        let (region, offset) = mapped(address)->0;
        let after = state.byte_stored(address, value);
        match region {
            MemoryRegion::PPURegister => {
                crate::ppu::lemma_register_written(state.ppu, offset, value);
            },
            MemoryRegion::IO => {
                assert forall|i: int| 0 <= i < 4 implies (#[trigger] after.dma[i]).index == i
                    && after.dma[i].well_formed() by {
                    assert(state.dma[i].index == i && state.dma[i].well_formed());
                    crate::dma::lemma_units(state.dma[i], state.io);
                }
            },
            _ => {
                crate::ppu::lemma_memories_replaced(state.ppu, after.ppu);
            },
        }
    }
}

proof fn lemma_aligned_word(address: u32)
    ensures
        (address & !3u32) % 4 == 0,
        (address & !3u32) <= address,
{
    assert((address & !3u32) % 4 == 0 && (address & !3u32) <= address) by (bit_vector);
}

impl System {
    /// The machine with a start-up program and a cartridge, before its first
    /// cycle.
    pub fn new(bios: Vec<u8>, rom: Vec<u8>) -> (sys: System)
        ensures
            sys@.well_formed(),
            sys@.bios == bios@,
            sys@.rom == rom@,
            sys@.ram == Seq::new(RAM_SIZE as nat, |i: int| 0u8),
            sys@.io == Seq::new(0x400, |i: int| 0u8),
            sys@.pressed_keys == Set::<Key>::empty(),
            !sys@.cpu_paused,
            sys@.interrupts == 0,
            sys@.dma == Seq::new(
                4,
                |i: int|
                    (DmaChannel { index: i as usize, source: 0, target: 0, count: 0, handled: false }),
            ),
            sys@.timers == Seq::new(
                4,
                |i: int| (TimerState { registers: Seq::new(4, |j: int| 0u8), current: 0 }),
            ),
            sys@.ppu == (PpuState {
                line: 0,
                hblank: false,
                wait_cycles: 0,
                palettes: Seq::new(0x400, |i: int| 0u8),
                vram: Seq::new(0x18000, |i: int| 0u8),
                registers: Seq::new(0x60, |i: int| 0u8),
                oam: Seq::new(0x400, |i: int| 0u8),
                reference_points: Seq::new(4, |i: int| 0i64),
            }),
    {
        let sys = System {
            bios,
            rom,
            ram: vec![0; 0x58000],
            pressed_keys: PressedKeys::new(),
            io: [0; 0x400],
            ppu: Ppu::new(),
            cpu_paused: false,
            interrupts: Interrupts(0),
            timer: Timers::default(),
            dma: [DmaChannel::new(0), DmaChannel::new(1), DmaChannel::new(2), DmaChannel::new(3)],
        };
        assert(sys.ram@ =~= Seq::new(RAM_SIZE as nat, |i: int| 0u8));
        assert(sys.dma@ =~= Seq::new(
            4,
            |i: int|
                (DmaChannel { index: i as usize, source: 0, target: 0, count: 0, handled: false }),
        ));
        sys
    }

    /// Lets the picture unit and the timers see the machine cycle with this
    /// number.
    pub fn step_devices(&mut self, cycle: u32) -> (event: PpuEvent)
        requires
            old(self)@.well_formed(),
            old(self)@.ppu.can_step(),
        ensures
            final(self)@.well_formed(),
            final(self)@ == old(self)@.devices_stepped(cycle),
            is_event_of(event, old(self)@.ppu),
    {
        let event = self.ppu.step(&mut self.interrupts);
        self.timer.step(&mut self.interrupts, cycle);
        event
    }

    /// Runs a DMA channel as it was when the machine cycle began, puts it back
    /// in its place, and returns the number of cycles that it has taken.
    fn run_channel(&mut self, channel: DmaChannel) -> (cycles: u32)
        requires
            old(self)@.well_formed(),
            channel.well_formed(),
            channel.runnable(old(self)@),
        ensures
            final(self)@.well_formed(),
            final(self)@ == old(self)@.channel_run(channel),
            cycles == channel.cycles(old(self)@),
            cycles <= 0x20002,
    {
        let mut channel: DmaChannel = channel;
        let cycles: u32 = channel.dma(self);
        let ghost after = self@;
        self.dma[channel.index] = channel;
        assert forall|i: int| 0 <= i < 4 implies (#[trigger] self@.dma[i]).index == i
            && self@.dma[i].well_formed() by {
            assert(after.dma[i].index == i && after.dma[i].well_formed());
        }
        cycles
    }

    /// Lets each DMA channel run, one after the other, and returns the number
    /// of cycles that the processor has to wait for them. Stops at a channel
    /// that cannot be run and returns its number. Lists the void accesses that
    /// the channels have made.
    pub fn run_channels(&mut self, void: &mut Vec<VoidAccess>) -> (r: Result<u32, usize>)
        requires
            old(self)@.well_formed(),
        ensures
            final(self)@.well_formed(),
            match r {
                Ok(cycles) => {
                    &&& forall|i: int| 0 <= i < 4 ==> #[trigger] old(self)@.channel_can_run(i)
                    &&& final(self)@ == old(self)@.channels_run(4)
                    &&& cycles == old(self)@.channel_cycles(4)
                    &&& final(void)@ == old(void)@ + old(self)@.channel_voids(4)
                },
                Err(stopped) => {
                    &&& stopped < 4
                    &&& forall|i: int| 0 <= i < stopped ==> #[trigger] old(self)@.channel_can_run(i)
                    &&& !old(self)@.channel_can_run(stopped as int)
                    &&& final(self)@ == old(self)@.channels_run(stopped as nat)
                    &&& final(void)@ == old(void)@ + old(self)@.channel_voids(stopped as nat)
                },
            },
    {
        let ghost before = self@;
        let channels: [DmaChannel; 4] = self.dma;
        let mut cycles: u32 = 0;
        let mut i: usize = 0;
        assert(void@ =~= old(void)@ + before.channel_voids(0));
        while i < 4
            invariant
                i <= 4,
                void@ == old(void)@ + before.channel_voids(i as nat),
                before == old(self)@,
                before.well_formed(),
                channels@ == before.dma,
                self@.well_formed(),
                self@ == before.channels_run(i as nat),
                cycles == before.channel_cycles(i as nat),
                cycles <= i * 0x20002,
                forall|j: int| 0 <= j < i ==> #[trigger] before.channel_can_run(j),
            decreases 4 - i,
        {
            let channel: DmaChannel = channels[i];
            assert(before.dma[i as int].well_formed());
            if !channel.can_run(self) {
                assert(!before.channel_can_run(i as int));
                return Err(i);
            }
            assert(before.channel_can_run(i as int));
            channel.note_accesses(self, void);
            cycles += self.run_channel(channel);
            i += 1;
            assert(void@ =~= old(void)@ + before.channel_voids(i as nat));
        }
        Ok(cycles)
    }

    /// Runs one machine cycle behind the processor: the devices see the cycle,
    /// the DMA channels run and stall the processor, and the clock moves on.
    /// Returns what the cycle has brought for the screen and whether a picture's
    /// time is over with it, or the number of a channel that cannot be run.
    /// Lists the void accesses that the channels have made.
    pub fn run_cycle(&mut self, clock: &mut Clock, void: &mut Vec<VoidAccess>) -> (r: Result<
        (PpuEvent, bool),
        usize,
    >)
        requires
            old(self)@.well_formed(),
            old(self)@.ppu.can_step(),
        ensures
            final(self)@.well_formed(),
            ({
                let stepped = old(self)@.devices_stepped(old(clock).cycle);
                match r {
                    Ok((event, picture_over)) => {
                        &&& is_event_of(event, old(self)@.ppu)
                        &&& picture_over == (old(clock).cycle % FRAME_CYCLES == 0)
                        &&& forall|i: int| 0 <= i < 4 ==> #[trigger] stepped.channel_can_run(i)
                        &&& final(self)@ == stepped.channels_run(4)
                        &&& *final(clock) == (Clock {
                            cycle: old(clock).cycle.wrapping_add(1),
                            reached: old(clock).reached.wrapping_add(
                                stepped.channel_cycles(4) as u32,
                            ),
                        })
                        &&& final(void)@ == old(void)@ + stepped.channel_voids(4)
                    },
                    Err(stopped) => {
                        &&& stopped < 4
                        &&& forall|i: int|
                            0 <= i < stopped ==> #[trigger] stepped.channel_can_run(i)
                        &&& !stepped.channel_can_run(stopped as int)
                        &&& final(self)@ == stepped.channels_run(stopped as nat)
                        &&& *final(clock) == *old(clock)
                        &&& final(void)@ == old(void)@ + stepped.channel_voids(stopped as nat)
                    },
                }
            }),
    {
        let event = self.step_devices(clock.cycle);
        match self.run_channels(void) {
            Ok(cycles) => {
                clock.stalled(cycles);
                let picture_over: bool = clock.is_frame();
                clock.advance();
                Ok((event, picture_over))
            },
            Err(stopped) => Err(stopped),
        }
    }

    /// Takes note of a key that has been pressed, and asks for the key
    /// interrupt. A key that no button is assigned to only does the latter.
    pub fn key_down(&mut self, key: Option<Key>)
        requires
            old(self)@.well_formed(),
        ensures
            final(self)@.well_formed(),
            final(self)@ == (SystemState {
                pressed_keys: match key {
                    Some(key) => old(self)@.pressed_keys.insert(key),
                    None => old(self)@.pressed_keys,
                },
                interrupts: requested(old(self)@.interrupts, 12),
                ..old(self)@
            }),
    {
        if let Some(key) = key {
            self.pressed_keys.insert(key);
        }
        self.interrupts.interrupt(12);
    }

    /// Takes note of a key that has been released.
    pub fn key_up(&mut self, key: Key)
        requires
            old(self)@.well_formed(),
        ensures
            final(self)@.well_formed(),
            final(self)@ == (SystemState {
                pressed_keys: old(self)@.pressed_keys.remove(key),
                ..old(self)@
            }),
    {
        self.pressed_keys.remove(key);
    }

    fn set_pressed_keys(&self, value: &mut u32, keys: &[Key], bit: u32)
        requires
            bit < 32,
        ensures
            *final(value) == old(value).with_bit(bit, !any_held(self@.pressed_keys, keys@)),
    {
        let mut held: bool = false;
        let mut i: usize = 0;
        while i < keys.len()
            invariant
                i <= keys@.len(),
                held == any_held(self@.pressed_keys, keys@.take(i as int)),
            decreases keys@.len() - i,
        {
            let ghost part = keys@.take(i as int);
            let ghost longer = keys@.take(i + 1);
            if self.pressed_keys.contains(keys[i]) {
                held = true;
                assert(self@.pressed_keys.contains(longer[i as int]));
            }
            proof {
                if any_held(self@.pressed_keys, part) {
                    let j = choose|j: int|
                        0 <= j < part.len() && self@.pressed_keys.contains(#[trigger] part[j]);
                    assert(longer[j] == part[j]);
                }
                if any_held(self@.pressed_keys, longer) {
                    let j = choose|j: int|
                        0 <= j < longer.len() && self@.pressed_keys.contains(#[trigger] longer[j]);
                    if j < i {
                        assert(part[j] == longer[j]);
                    }
                }
            }
            i += 1;
        }
        assert(keys@.take(i as int) =~= keys@);
        value.set_bit(bit, !held);
    }

    fn button_register(&self) -> (r: u32)
        ensures
            r == buttons(self@.pressed_keys),
    {
        proof {
            reveal_with_fuel(buttons_below, 11);
        }
        let mut value: u32 = 0;
        let keys: [Key; 2] = [Key::Space, Key::Z];
        assert(keys@ =~= keys_of(0));
        self.set_pressed_keys(&mut value, &keys, 0);
        let keys: [Key; 2] = [Key::LeftControl, Key::X];
        assert(keys@ =~= keys_of(1));
        self.set_pressed_keys(&mut value, &keys, 1);
        let keys: [Key; 1] = [Key::Tab];
        assert(keys@ =~= keys_of(2));
        self.set_pressed_keys(&mut value, &keys, 2);
        let keys: [Key; 1] = [Key::Return];
        assert(keys@ =~= keys_of(3));
        self.set_pressed_keys(&mut value, &keys, 3);
        let keys: [Key; 2] = [Key::Right, Key::D];
        assert(keys@ =~= keys_of(4));
        self.set_pressed_keys(&mut value, &keys, 4);
        let keys: [Key; 2] = [Key::Left, Key::A];
        assert(keys@ =~= keys_of(5));
        self.set_pressed_keys(&mut value, &keys, 5);
        let keys: [Key; 2] = [Key::Up, Key::W];
        assert(keys@ =~= keys_of(6));
        self.set_pressed_keys(&mut value, &keys, 6);
        let keys: [Key; 2] = [Key::Down, Key::S];
        assert(keys@ =~= keys_of(7));
        self.set_pressed_keys(&mut value, &keys, 7);
        let keys: [Key; 1] = [Key::E];
        assert(keys@ =~= keys_of(8));
        self.set_pressed_keys(&mut value, &keys, 8);
        let keys: [Key; 1] = [Key::Q];
        assert(keys@ =~= keys_of(9));
        self.set_pressed_keys(&mut value, &keys, 9);
        value
    }

    fn read_io(&self, address: u32) -> (r: u32)
        requires
            address + 3 < 0x400,
        ensures
            r == self@.io_word(address),
    {
        if 0x100 <= address && address < 0x110 {
            self.timer.read_register(address)
        } else if address == 0x130 {
            self.button_register()
        } else if address == 0x200 {
            self.interrupts.0
        } else {
            read_bytes(&self.io, address)
        }
    }

    fn write_io(&mut self, address: u32, value: u8)
        requires
            old(self)@.well_formed(),
            0x60 <= address < 0x400,
        ensures
            final(self)@.well_formed(),
            final(self)@ == old(self)@.io_stored(address, value),
    {
        let ghost before = self@;
        if address == 0xbb || address == 0xc7 || address == 0xd3 || address == 0xdf {
            let index: usize = ((address - 0xbb) / 0xc) as usize;
            assert(before.dma[index as int].index == index && before.dma[index as int].well_formed());
            if value.bit(7) && !self.io[address as usize].bit(7) {
                let mut channel: DmaChannel = self.dma[index];
                channel.start(&self.io);
                self.dma[index] = channel;
            }
            self.io[address as usize] = value;
            assert(self@ =~= before.io_stored(address, value));
            assert forall|i: int| 0 <= i < 4 implies (#[trigger] self@.dma[i]).index == i
                && self@.dma[i].well_formed() by {
                assert(before.dma[i].index == i && before.dma[i].well_formed());
            }
        } else if 0x100 <= address && address < 0x110 {
            self.timer.write_register(address, value);
        } else if 0x200 <= address && address < 0x204 {
            self.interrupts.write_register(address, value);
        } else if address == 0x301 {
            self.cpu_paused = true;
        } else {
            self.io[address as usize] = value;
        }
    }

    /// Writes one byte to an address.
    pub fn write_byte(&mut self, address: u32, value: u8)
        requires
            old(self)@.well_formed(),
            byte_writable(address),
        ensures
            final(self)@.well_formed(),
            final(self)@ == old(self)@.byte_stored(address, value),
    {
        match parse_address(address) {
            None => {},
            Some((region, offset)) => {
                proof {
                    crate::memory::mapped_offset_in_region(address);
                }
                match region {
                    MemoryRegion::Ram => {
                        self.ram[offset as usize] = value;
                    },
                    MemoryRegion::Palette => {
                        self.ppu.palettes[offset as usize] = value;
                    },
                    MemoryRegion::Vram => {
                        self.ppu.vram[offset as usize] = value;
                    },
                    MemoryRegion::Bios => {},
                    MemoryRegion::Rom => {},
                    MemoryRegion::Oam => {
                        self.ppu.oam[offset as usize] = value;
                    },
                    MemoryRegion::PPURegister => {
                        self.ppu.write_register(offset, value);
                    },
                    MemoryRegion::IO => {
                        self.write_io(offset, value);
                    },
                }
            },
        }
    }
}

impl MemoryBus for System {
    type State = SystemState;

    open spec fn state(&self) -> SystemState {
        self@
    }

    open spec fn valid(state: SystemState) -> bool {
        state.well_formed()
    }

    open spec fn readable(state: SystemState, address: u32) -> bool {
        state.readable(address)
    }

    open spec fn writable(state: SystemState, address: u32, size: u8) -> bool {
        state.writable(address, size)
    }

    open spec fn word_at(state: SystemState, address: u32) -> u32 {
        state.word_at(address)
    }

    open spec fn written(state: SystemState, address: u32, value: u32, size: u8) -> SystemState {
        state.stored(address, value, size)
    }

    proof fn write_keeps_access(
        state: SystemState,
        address: u32,
        value: u32,
        size: u8,
        other: u32,
        other_size: u8,
    ) {
        lemma_aligned(address, size);
        lemma_bytes_stored(state, aligned(address, size), value, size as nat);
    }

    fn can_read(&self, address: u32) -> bool {
        match parse_address(address & !3u32) {
            Some((region, offset)) => match region {
                MemoryRegion::Bios => (offset as usize) < self.bios.len() && self.bios.len()
                    - offset as usize > 3,
                MemoryRegion::Rom => offset >= self.rom.len() as u32 || ((offset as usize)
                    < self.rom.len() && self.rom.len() - offset as usize > 3),
                _ => true,
            },
            None => true,
        }
    }

    fn can_write(&self, address: u32, size: u8) -> bool {
        if size < 1 || size > 4 {
            return false;
        }
        proof {
            lemma_aligned(address, size);
        }
        let start: u32 = address & !(size as u32 - 1);
        let mut i: u8 = 0;
        while i < size
            invariant
                i <= size <= 4,
                start == aligned(address, size),
                start + size <= 0x1_0000_0000,
                forall|j: int| 0 <= j < i ==> #[trigger] byte_writable((start + j) as u32),
            decreases size - i,
        {
            let free: bool = match parse_address(start + i as u32) {
                Some((region, _)) => region != MemoryRegion::Bios && region != MemoryRegion::Rom,
                None => true,
            };
            if !free {
                assert(!byte_writable((start + i) as u32));
                return false;
            }
            i += 1;
        }
        true
    }

    fn read(&self, address: u32) -> u32 {
        proof {
            lemma_aligned_word(address);
        }
        let address: u32 = address & !3u32;
        match parse_address(address) {
            None => 0,
            Some((region, offset)) => {
                proof {
                    crate::memory::mapped_offset_in_region(address);
                    crate::memory::mapped_offset_is_aligned(address);
                }
                match region {
                    MemoryRegion::Bios => read_bytes(self.bios.as_slice(), offset),
                    MemoryRegion::Ram => read_bytes(self.ram.as_slice(), offset),
                    MemoryRegion::PPURegister => self.ppu.read_register(offset),
                    MemoryRegion::Palette => read_bytes(&self.ppu.palettes, offset),
                    MemoryRegion::Vram => read_bytes(self.ppu.vram.as_slice(), offset),
                    MemoryRegion::Rom => if offset >= self.rom.len() as u32 {
                        0
                    } else {
                        read_bytes(self.rom.as_slice(), offset)
                    },
                    MemoryRegion::Oam => read_bytes(&self.ppu.oam, offset),
                    MemoryRegion::IO => self.read_io(offset),
                }
            },
        }
    }

    fn write(&mut self, address: u32, value: u32, size: u8) {
        proof {
            lemma_aligned(address, size);
        }
        let start: u32 = address & !(size as u32 - 1);
        let ghost before = self@;
        let mut i: u8 = 0;
        while i < size
            invariant
                i <= size <= 4,
                start == aligned(address, size),
                start + size <= 0x1_0000_0000,
                forall|j: int| 0 <= j < size ==> #[trigger] byte_writable((start + j) as u32),
                self@.well_formed(),
                self@ == before.bytes_stored(start, value, i as nat),
            decreases size - i,
        {
            assert(byte_writable((start + i) as u32));
            self.write_byte(start + i as u32, (value >> (i as u32 * 8)) as u8);
            i += 1;
        }
    }
}

/// A write keeps the memories that can only be read.
pub(crate) proof fn lemma_stored(state: SystemState, address: u32, value: u32, size: u8)
    requires
        state.well_formed(),
    ensures
        state.stored(address, value, size).well_formed(),
        state.stored(address, value, size).bios == state.bios,
        state.stored(address, value, size).rom == state.rom,
{
    lemma_bytes_stored(state, aligned(address, size), value, size as nat);
}

/// Writing bytes keeps the machine well-formed and the memories that can only
/// be read.
proof fn lemma_bytes_stored(state: SystemState, start: u32, value: u32, count: nat)
    requires
        state.well_formed(),
    ensures
        state.bytes_stored(start, value, count).well_formed(),
        state.bytes_stored(start, value, count).bios == state.bios,
        state.bytes_stored(start, value, count).rom == state.rom,
    decreases count,
{
    if count > 0 {
        lemma_bytes_stored(state, start, value, (count - 1) as nat);
        lemma_byte_stored(
            state.bytes_stored(start, value, (count - 1) as nat),
            (start + count - 1) as u32,
            (value >> ((8 * (count - 1)) as u32)) as u8,
        );
    }
}

} // verus!
