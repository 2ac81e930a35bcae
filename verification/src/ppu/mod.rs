//! The picture unit.

pub mod background_laws;
pub mod check;
pub mod laws;
pub mod model;
pub mod object_laws;
pub mod render;
pub mod screen_laws;

use crate::bits::{le32, read_bytes, read_u16, Bits};
use crate::interrupts::Interrupts;
use crate::ppu::model::{
    PpuState, HBLANK_CYCLES, LINE_CYCLES, RENDER_CYCLES, SCREEN_HEIGHT, TOTAL_LINES,
};
use vstd::prelude::*;

verus! {

/// The address of the status register.
const DISPSTAT: u32 = 0x4;

/// The address of the line that the program waits for.
const VCOUNT: usize = 0x5;

/// The picture unit: its memories and registers, and where on the screen it is.
pub struct Ppu {
    pub line: u8,
    pub hblank: bool,
    pub wait_cycles: u16,
    pub palettes: [u8; 0x400],
    pub vram: Vec<u8>,
    pub registers: [u8; 0x60],
    pub oam: [u8; 0x400],
    pub reference_points: [i64; 4],
}

/// What a cycle of the picture unit has brought for the screen.
pub enum PpuEvent {
    /// Nothing that can be seen.
    Nothing,
    /// The pixels of a line, two bytes each.
    Line(u8, Vec<u8>),
    /// The picture is complete.
    Frame,
}

impl View for Ppu {
    type V = PpuState;

    open spec fn view(&self) -> PpuState {
        PpuState {
            line: self.line,
            hblank: self.hblank,
            wait_cycles: self.wait_cycles,
            palettes: self.palettes@,
            vram: self.vram@,
            registers: self.registers@,
            oam: self.oam@,
            reference_points: self.reference_points@,
        }
    }
}

/// What a cycle brings for the screen.
pub open spec fn is_event_of(event: PpuEvent, state: PpuState) -> bool {
    if state.is_showing() && !state.is_blanked() {
        match event {
            PpuEvent::Line(line, pixels) => line == state.line && pixels@ == state.line_bytes(),
            PpuEvent::Nothing => false,
            PpuEvent::Frame => false,
        }
    } else if state.is_ending() && state.line == TOTAL_LINES {
        event is Frame
    } else {
        event is Nothing
    }
}

/// A number of 28 bits, extended to more, has no more than 28 bits.
proof fn lemma_reference_range(word: u32)
    ensures
        -0x0800_0000 <= ((((word << 4) as i32) as i64) >> 4) as i64 <= 0x0800_0000,
{
    let v = ((word << 4) as i32) as i64;
    assert(-0x0800_0000 <= (v >> 4) <= 0x0800_0000) by (bit_vector)
        requires
            -0x8000_0000 <= v <= 0x7fff_ffff,
    ;
}

/// Writing a register keeps the picture unit well-formed.
pub(crate) proof fn lemma_register_written(state: PpuState, address: u32, value: u8)
    requires
        state.well_formed(),
        address < 0x60,
    ensures
        state.register_written(address, value).well_formed(),
{
    let stored = PpuState { registers: state.registers.update(address as int, value), ..state };
    let after = state.register_written(address, value);
    assert forall|i: int| 0 <= i < 4 implies -after.reach() <= #[trigger] after.reference_points[i]
        <= after.reach() by {
        assert(-state.reach() <= state.reference_points[i] <= state.reach());
        lemma_reference_range(le32(stored.registers, 0x28 + 0x10 * (i / 2) + 4 * (i % 2)));
    }
}

/// The contents of the memories do not matter for being well-formed.
pub(crate) proof fn lemma_memories_replaced(state: PpuState, after: PpuState)
    requires
        state.well_formed(),
        after == (PpuState {
            palettes: after.palettes,
            vram: after.vram,
            oam: after.oam,
            ..state
        }),
        after.palettes.len() == 0x400,
        after.vram.len() == 0x18000,
        after.oam.len() == 0x400,
    ensures
        after.well_formed(),
{
    assert forall|i: int| 0 <= i < 4 implies -after.reach() <= #[trigger] after.reference_points[i]
        <= after.reach() by {
        assert(-state.reach() <= state.reference_points[i] <= state.reach());
    }
}

/// A line moves a reference point by less than one line's reach.
proof fn lemma_line_shown_reach(state: PpuState)
    requires
        state.well_formed(),
        state.line < SCREEN_HEIGHT,
        !state.hblank,
    ensures
        (PpuState {
            hblank: true,
            wait_cycles: HBLANK_CYCLES,
            ..state.line_shown()
        }).well_formed(),
{
    let shown = state.line_shown();
    assert(state.reach() + 0x8000 == (PpuState { hblank: true, ..shown }).reach());
    assert forall|i: int| 0 <= i < 4 implies -(state.reach() + 0x8000)
        <= #[trigger] shown.reference_points[i] <= state.reach() + 0x8000 by {
        assert(-state.reach() <= state.reference_points[i] <= state.reach());
    }
}

impl Ppu {
    /// A picture unit with empty memories, at the start of a picture.
    #[must_use]
    pub fn new() -> (ppu: Ppu)
        ensures
            ppu@.well_formed(),
            ppu@ == (PpuState {
                line: 0,
                hblank: false,
                wait_cycles: 0,
                palettes: Seq::new(0x400, |i: int| 0u8),
                vram: Seq::new(0x18000, |i: int| 0u8),
                registers: Seq::new(0x60, |i: int| 0u8),
                oam: Seq::new(0x400, |i: int| 0u8),
                reference_points: Seq::new(4, |i: int| 0i64),
            }),
    {
        let ppu = Ppu {
            line: 0,
            wait_cycles: 0,
            hblank: false,
            palettes: [0; 0x400],
            oam: [0; 0x400],
            reference_points: [0; 4],
            registers: [0; 0x60],
            vram: vec![0; 0x18000],
        };
        assert(ppu.vram@ =~= Seq::new(0x18000, |i: int| 0u8));
        ppu
    }

    fn load_reference_point(&mut self, index: usize)
        requires
            index < 4,
            old(self)@.well_formed(),
        ensures
            final(self)@ == old(self)@.reference_loaded(index as int),
            final(self)@.well_formed(),
            -0x0800_0000 <= final(self)@.reference_points[index as int] <= 0x0800_0000,
    {
        let word: u32 = read_bytes(
            &self.registers,
            (0x28 + 0x10 * (index / 2) + 4 * (index % 2)) as u32,
        );
        proof {
            lemma_reference_range(word);
        }
        let point: i64 = (((word << 4) as i32) as i64) >> 4;
        self.reference_points[index] = point;
    }

    /// Advances by one cycle.
    pub fn step(&mut self, interrupts: &mut Interrupts) -> (event: PpuEvent)
        requires
            old(self)@.well_formed(),
            old(self)@.can_step(),
        ensures
            final(self)@.well_formed(),
            final(self)@ == old(self)@.stepped(),
            final(interrupts).0 == old(self)@.requests(old(interrupts).0),
            is_event_of(event, old(self)@),
    {
        let dispstat: u8 = self.registers[DISPSTAT as usize];
        if self.wait_cycles > 0 {
            self.wait_cycles -= 1;
            return PpuEvent::Nothing;
        }
        if self.hblank || self.line >= SCREEN_HEIGHT {
            let mut event = PpuEvent::Nothing;
            if self.line == SCREEN_HEIGHT {
                self.load_reference_point(0);
                self.load_reference_point(1);
                self.load_reference_point(2);
                self.load_reference_point(3);
                if dispstat.bit(3) {
                    interrupts.interrupt(0);
                }
            } else if self.line == TOTAL_LINES {
                self.line = 0xff;
                event = PpuEvent::Frame;
            }
            self.line = self.line.wrapping_add(1);
            if dispstat.bit(5) && self.line == self.registers[VCOUNT] {
                interrupts.interrupt(2);
            }
            self.wait_cycles = if self.hblank { RENDER_CYCLES } else { LINE_CYCLES };
            self.hblank = false;
            event
        } else {
            let line: u8 = self.line;
            proof {
                lemma_line_shown_reach(self@);
            }
            let pixels = self.render_line();
            self.hblank = true;
            self.wait_cycles = HBLANK_CYCLES;
            if dispstat.bit(4) {
                interrupts.interrupt(1);
            }
            match pixels {
                Some(pixels) => PpuEvent::Line(line, pixels),
                None => PpuEvent::Nothing,
            }
        }
    }

    /// Reads the word of registers at an address.
    pub fn read_register(&self, address: u32) -> (r: u32)
        requires
            address + 3 < 0x60,
        ensures
            r == self@.register_word(address),
    {
        if address == DISPSTAT {
            let mut dispstat: u32 = read_u16(&self.registers, 4) as u32;
            dispstat = dispstat | ((self.line as u32) << 16);
            dispstat.set_bit(0, self.line >= SCREEN_HEIGHT);
            dispstat.set_bit(1, self.hblank);
            dispstat.set_bit(2, self.line == self.registers[VCOUNT]);
            dispstat
        } else {
            read_bytes(&self.registers, address)
        }
    }

    /// Writes one byte of the registers.
    pub fn write_register(&mut self, address: u32, value: u8)
        requires
            address < 0x60,
            old(self)@.well_formed(),
        ensures
            final(self)@ == old(self)@.register_written(address, value),
            final(self)@.well_formed(),
    {
        self.registers[address as usize] = value;
        if (0x28 <= address && address < 0x2f) || (0x38 <= address && address < 0x3f) {
            let address: u32 = address - 0x28;
            self.load_reference_point(((address % 8) / 4 + (address / 0x10) * 2) as usize);
        }
    }
}

} // verus!
