//! The processor.

pub mod alu_laws;
pub mod arithmetic;
pub mod decoder_laws;
pub mod execute;
pub mod flags;
pub mod instruction;
pub mod instruction_laws;
pub mod laws;
pub mod mode;
pub mod model;
pub mod parser;
pub mod step;
pub mod thumb;

use crate::bits::Bits;
use crate::cpu::arithmetic::{barrel_shift, rotate_right};
use crate::cpu::instruction::{Indexing, Offset, OffsetShift};
use crate::cpu::mode::{banked, register_index, CpuMode};
use crate::cpu::model::{loaded, CpuState};
use crate::memory::MemoryBus;
use vstd::prelude::*;

verus! {

/// The number of the stack pointer.
pub const SP: u32 = 13;

/// The number of the link register.
pub const LINK: u32 = 14;

/// The place of the program counter.
pub const PC: usize = 15;

/// The processor: the registers of all banks, the current and the saved status
/// registers, and how many instructions the pipeline holds.
#[derive(Clone, Copy)]
pub struct Cpu {
    pub registers: [u32; 31],
    pub cpsr: u32,
    pub spsr: [u32; 5],
    /// Set by a half word transfer at an odd address, whose effect is not
    /// defined.
    pub skip_test: bool,
    pub pipeline_size: u8,
    /// The number of cycles that have passed, modulo its range.
    pub cycle: u16,
}

impl View for Cpu {
    type V = CpuState;

    open spec fn view(&self) -> CpuState {
        CpuState {
            registers: self.registers@,
            cpsr: self.cpsr,
            spsr: self.spsr@,
            skip_test: self.skip_test,
            pipeline_size: self.pipeline_size,
            cycle: self.cycle,
        }
    }
}

/// Loads a word or a byte.
fn load_dynamic_width<M: MemoryBus>(mem: &M, address: u32, byte: bool) -> (r: u32)
    requires
        M::valid(mem.state()),
        M::readable(mem.state(), address),
    ensures
        r == loaded(M::word_at(mem.state(), address), address, byte),
{
    let value: u32 = mem.read(address);
    if byte { value & 0xff } else { rotate_right(value, 8 * (address % 4)) }
}

impl Cpu {
    /// The processor as it is when a cartridge is started: in the system mode,
    /// at the first word of the cartridge, with the stacks set up.
    pub fn new() -> (cpu: Cpu)
        ensures
            cpu@ == (CpuState {
                registers: Seq::new(31, |i: int| 0u32).update(15, 0x0800_0008).update(
                    banked(CpuMode::User, 13),
                    0x0300_7f00,
                ).update(banked(CpuMode::Irq, 13), 0x0300_7fa0).update(
                    banked(CpuMode::Supervisor, 13),
                    0x0300_7fe0,
                ),
                cpsr: 0x1f,
                spsr: Seq::new(5, |i: int| 0u32),
                skip_test: false,
                pipeline_size: 2,
                cycle: 0,
            }),
    {
        let mut registers: [u32; 31] = [0; 31];
        registers[PC] = 0x0800_0008;
        registers[register_index(CpuMode::User, SP)] = 0x0300_7f00;
        registers[register_index(CpuMode::Irq, SP)] = 0x0300_7fa0;
        registers[register_index(CpuMode::Supervisor, SP)] = 0x0300_7fe0;
        Cpu {
            registers,
            cpsr: 0x1f,
            spsr: [0; 5],
            pipeline_size: 2,
            skip_test: false,
            cycle: 0,
        }
    }

    fn instruction_size(&self) -> (r: u32)
        ensures
            r == self@.instruction_size(),
    {
        if self.flag(flags::THUMB) { 2 } else { 4 }
    }

    fn pc(&self) -> (r: u32)
        ensures
            r == self@.pc(),
    {
        self.registers[PC]
    }

    fn set_pc(&mut self, value: u32)
        ensures
            final(self)@ == old(self)@.jumped(value),
    {
        self.registers[PC] = value & !(self.instruction_size() - 1);
        self.pipeline_size = 0;
        self.cycle();
    }

    fn cycle(&mut self)
        ensures
            final(self)@ == old(self)@.ticked(),
    {
        self.cycle = self.cycle.wrapping_add(1);
        if self.pipeline_size < 2 {
            self.pipeline_size += 1;
            self.registers[PC] = self.pc().wrapping_add(self.instruction_size());
        }
    }

    fn register(&self, register: usize) -> (r: u32)
        requires
            register < 31,
        ensures
            r == self@.registers[register as int],
    {
        self.registers[register]
    }

    fn set_register(&mut self, register: usize, value: u32)
        requires
            register < 31,
        ensures
            final(self)@ == old(self)@.with_register(register as int, value),
    {
        if register == PC {
            self.set_pc(value);
        } else {
            self.registers[register] = value;
        }
    }

    fn flag(&self, flag: u32) -> (r: bool)
        requires
            flag < 32,
        ensures
            r == self@.flag(flag),
    {
        self.cpsr.bit(flag)
    }

    fn set_flag(&mut self, bit: u32, value: bool)
        requires
            bit < 32,
        ensures
            final(self)@ == old(self)@.with_flag(bit, value),
    {
        self.cpsr.set_bit(bit, value);
    }

    fn resolve_indexing(&mut self, index: Indexing, offset: u32) -> (r: u32)
        requires
            index.base < 31,
        ensures
            final(self)@ == old(self)@.indexed(index, offset),
            r == old(self)@.indexed_address(index, offset),
    {
        let address: u32 = self.register(index.base);
        let new_address: u32 = if index.subtract {
            address.wrapping_sub(offset)
        } else {
            address.wrapping_add(offset)
        };
        if index.write_back || !index.modify_first {
            self.set_register(index.base, new_address);
        }
        if index.modify_first { new_address } else { address }
    }

    fn resolve_offset(&mut self, offset: Offset, with_flags: bool) -> (r: u32)
        requires
            offset.well_formed(),
        ensures
            final(self)@ == old(self)@.operand_resolved(offset, with_flags),
            r == old(self)@.operand(offset).0,
    {
        let (value, carry): (u32, Option<bool>) = match offset {
            Offset::Immediate { value, carry } => (value, carry),
            Offset::Register(register) => (self.register(register), None),
            Offset::ShiftedRegister { register, shift_type, shift } => {
                let mut shift_type: u8 = shift_type;
                let shift: u32 = match shift {
                    OffsetShift::Register(distance) => {
                        let shift: u32 = self.register(distance) & 0xff;
                        if shift == 0 {
                            shift_type = 0b00;
                        }
                        self.cycle();
                        shift
                    },
                    OffsetShift::Immediate(value) => value,
                };
                let operand: u32 = self.register(register);
                barrel_shift(operand, shift_type, shift, self.flag(flags::CARRY))
            },
        };
        if with_flags {
            if let Some(carry) = carry {
                self.set_flag(flags::CARRY, carry);
            }
        }
        value
    }

    fn condition(&self, cond: u8) -> (r: bool)
        ensures
            r == self@.condition(cond),
    {
        let condition: bool = match cond >> 1 {
            0b000 => self.flag(flags::ZERO),
            0b001 => self.flag(flags::CARRY),
            0b010 => self.flag(flags::NEGATIVE),
            0b011 => self.flag(flags::OVERFLOW),
            0b100 => self.flag(flags::CARRY) && !self.flag(flags::ZERO),
            0b101 => self.flag(flags::NEGATIVE) == self.flag(flags::OVERFLOW),
            0b110 => !self.flag(flags::ZERO) && (self.flag(flags::NEGATIVE) == self.flag(
                flags::OVERFLOW,
            )),
            _ => true,
        };
        condition == (cond & 1 == 0)
    }
}

} // verus!
