//! The execution of instructions.

use crate::bits::Bits;
use crate::cpu::arithmetic::compute;
use crate::cpu::flags;
use crate::cpu::instruction::{
    DataProcessingCpsr, DataProcessingOpcode, HalfwordDataTransferMode, Indexing, Instruction,
    Offset, RegisterList,
};
use crate::cpu::mode::{register_index, spsr_index, CpuMode};
use crate::cpu::model::{
    block_accessible, block_moved, block_transferred, completable, completed, executable, executed,
    place_accessible, CpuState, Machine,
};
use crate::cpu::{load_dynamic_width, Cpu, LINK};
use crate::memory::MemoryBus;
use vstd::prelude::*;

verus! {

impl Cpu {
    fn software_interrupt(&mut self)
        ensures
            final(self)@ == old(self)@.interrupted(),
    {
        self.set_register(
            register_index(CpuMode::Supervisor, LINK),
            self.pc().wrapping_sub(self.instruction_size()),
        );
        if let Some(saved) = spsr_index(CpuMode::Supervisor) {
            self.spsr[saved] = self.cpsr;
        }
        self.cpsr = self.cpsr & !0b1111u32 | 0b0011u32;
        self.set_flag(flags::THUMB, false);
        self.set_flag(flags::DISABLE_IRQ, true);
        self.set_pc(0x08);
    }

    fn branch(&mut self, offset: i32, link_register: Option<usize>)
        requires
            link_register is Some ==> link_register->0 < 31,
            old(self)@.branch_in_range(offset, link_register),
        ensures
            final(self)@ == old(self)@.branched(offset, link_register),
    {
        let pc: u32 = self.pc();
        match link_register {
            Some(link) => if self.flag(flags::THUMB) {
                self.set_pc(self.register(link) + offset as u32);
                self.set_register(link, pc - 1);
            } else {
                self.set_register(link, pc - 4);
                self.set_pc(pc.wrapping_add_signed(offset));
            },
            None => {
                self.set_pc(pc.wrapping_add_signed(offset));
            },
        }
    }

    fn store_status(&mut self, spsr: Option<usize>, source: Offset, mask: u32)
        requires
            spsr is Some ==> spsr->0 < 5,
            source.well_formed(),
        ensures
            final(self)@ == old(self)@.status_written(spsr, source, mask),
    {
        let value: u32 = self.resolve_offset(source, false);
        match spsr {
            Some(saved) => {
                self.spsr[saved] = self.spsr[saved] & !mask | value & mask;
            },
            None => {
                self.cpsr = self.cpsr & !mask | value & mask;
            },
        }
    }

    pub(crate) fn block_start(&self, registers: RegisterList, index: Indexing) -> (r: u32)
        requires
            index.base < 31,
        ensures
            r == self@.block_start(registers, index),
    {
        let offset: u32 = registers.len() * 4;
        let mut address: u32 = self.register(index.base);
        if index.subtract {
            address = address.wrapping_sub(offset);
        }
        if index.modify_first != index.subtract {
            address = address.wrapping_add(4);
        }
        address
    }

    fn block_transfer<M: MemoryBus>(
        &mut self,
        mem: &mut M,
        load: bool,
        registers: RegisterList,
        load_spsr: Option<usize>,
        index: Indexing,
    )
        requires
            M::valid(old(mem).state()),
            index.base < 31,
            load_spsr is Some ==> load_spsr->0 < 5,
            block_accessible::<M>(
                old(mem).state(),
                load,
                old(self)@.block_start(registers, index),
                registers.places().len(),
            ),
        ensures
            M::valid(final(mem).state()),
            (Machine { cpu: final(self)@, memory: final(mem).state() }) == block_transferred::<M>(
                Machine { cpu: old(self)@, memory: old(mem).state() },
                load,
                registers,
                load_spsr,
                index,
            ),
    {
        let offset: u32 = registers.len() * 4;
        let base: u32 = self.register(index.base);
        let updated_base: u32 = if index.subtract {
            base.wrapping_sub(offset)
        } else {
            base.wrapping_add(offset)
        };
        let start: u32 = self.block_start(registers, index);
        let mut address: u32 = start;
        self.cycle();
        let ghost places = registers.places();
        let ghost before = Machine { cpu: self@, memory: mem.state() };
        let mut i: u16 = 0;
        let mut moved: u32 = 0;
        while i < 16
            invariant
                i <= 16,
                moved == registers.below(i as nat).len(),
                moved <= i,
                places == registers.places(),
                address == start.wrapping_add((4 * moved) as u32),
                M::valid(mem.state()),
                block_accessible::<M>(mem.state(), load, start, places.len()),
                (Machine { cpu: self@, memory: mem.state() }) == block_moved::<M>(
                    before,
                    load,
                    places,
                    start,
                    moved as nat,
                ),
            decreases 16 - i,
        {
            if registers.bits.bit(i) {
                let register: usize = register_index(registers.bank, i as u32);
                proof {
                    registers.lemma_below((i + 1) as nat, 16);
                    assert(registers.below((i + 1) as nat)[moved as int] == register);
                    assert(places[moved as int] == register);
                    assert(place_accessible::<M>(mem.state(), load, start, moved as int));
                }
                let ghost memory = mem.state();
                if load {
                    let value: u32 = mem.read(address);
                    self.set_register(register, value);
                } else {
                    let value: u32 = self.register(register);
                    mem.write(address, value, 4);
                    proof {
                        assert forall|j: int| 0 <= j < places.len() implies #[trigger] place_accessible::<
                            M,
                        >(mem.state(), load, start, j) by {
                            assert(place_accessible::<M>(memory, load, start, j));
                            M::write_keeps_access(
                                memory,
                                address,
                                value,
                                4,
                                start.wrapping_add((4 * j) as u32),
                                4,
                            );
                        }
                    }
                }
                address = address.wrapping_add(4);
                moved += 1;
            }
            i += 1;
        }
        if index.write_back {
            self.set_register(index.base, updated_base);
        }
        if let Some(saved) = load_spsr {
            self.cpsr = self.spsr[saved];
        }
    }

    fn single_transfer<M: MemoryBus>(
        &mut self,
        mem: &mut M,
        load: bool,
        index: Indexing,
        target: usize,
        offset: Offset,
        byte: bool,
    )
        requires
            M::valid(old(mem).state()),
            (Instruction::SingleDataTransfer { load, index, target, offset, byte }).well_formed(),
            executable::<M>(
                Machine { cpu: old(self)@, memory: old(mem).state() },
                Instruction::SingleDataTransfer { load, index, target, offset, byte },
            ),
        ensures
            M::valid(final(mem).state()),
            (Machine { cpu: final(self)@, memory: final(mem).state() }) == executed::<M>(
                Machine { cpu: old(self)@, memory: old(mem).state() },
                Instruction::SingleDataTransfer { load, index, target, offset, byte },
            ),
    {
        let offset: u32 = self.resolve_offset(offset, false);
        let address: u32 = self.resolve_indexing(index, offset);
        self.cycle();
        if load {
            let value: u32 = load_dynamic_width(mem, address, byte);
            self.set_register(target, value);
        } else {
            mem.write(address, self.register(target), if byte { 1 } else { 4 });
        }
    }

    fn halfword_transfer<M: MemoryBus>(
        &mut self,
        mem: &mut M,
        mode: HalfwordDataTransferMode,
        index: Indexing,
        target: usize,
        offset: Offset,
    )
        requires
            M::valid(old(mem).state()),
            (Instruction::HalfwordDataTransfer { mode, index, target, offset }).well_formed(),
            executable::<M>(
                Machine { cpu: old(self)@, memory: old(mem).state() },
                Instruction::HalfwordDataTransfer { mode, index, target, offset },
            ),
        ensures
            M::valid(final(mem).state()),
            (Machine { cpu: final(self)@, memory: final(mem).state() }) == executed::<M>(
                Machine { cpu: old(self)@, memory: old(mem).state() },
                Instruction::HalfwordDataTransfer { mode, index, target, offset },
            ),
    {
        let offset: u32 = self.resolve_offset(offset, false);
        let address: u32 = self.resolve_indexing(index, offset);
        self.cycle();
        if address & 1 != 0 && !matches!(mode, HalfwordDataTransferMode::LoadSignedByte) {
            self.skip_test = true;
        }
        match mode {
            HalfwordDataTransferMode::StoreHalfword => {
                mem.write(address, self.register(target), 2);
            },
            HalfwordDataTransferMode::LoadSignedByte => {
                let value: u32 = ((mem.read(address) as i8) as i32) as u32;
                self.set_register(target, value);
            },
            HalfwordDataTransferMode::LoadUnsignedHalfword => {
                let value: u32 = (mem.read(address) as u16) as u32;
                self.set_register(target, value);
            },
            HalfwordDataTransferMode::LoadSignedHalfword => {
                let value: u32 = ((mem.read(address) as i16) as i32) as u32;
                self.set_register(target, value);
            },
        }
    }

    fn swap<M: MemoryBus>(
        &mut self,
        mem: &mut M,
        source: usize,
        target: usize,
        base: usize,
        byte: bool,
    )
        requires
            M::valid(old(mem).state()),
            source < 31,
            target < 31,
            base < 31,
            executable::<M>(
                Machine { cpu: old(self)@, memory: old(mem).state() },
                Instruction::SingleDataSwap { source, target, base, byte },
            ),
        ensures
            M::valid(final(mem).state()),
            (Machine { cpu: final(self)@, memory: final(mem).state() }) == executed::<M>(
                Machine { cpu: old(self)@, memory: old(mem).state() },
                Instruction::SingleDataSwap { source, target, base, byte },
            ),
    {
        let address: u32 = self.register(base);
        let value: u32 = load_dynamic_width(mem, address, byte);
        mem.write(address, self.register(source), if byte { 1 } else { 4 });
        self.set_register(target, value);
    }

    fn multiply(
        &mut self,
        operand1: usize,
        operand2: usize,
        accumulate: Option<usize>,
        target: usize,
        set_flags: bool,
    )
        requires
            operand1 < 31,
            operand2 < 31,
            target < 31,
            accumulate is Some ==> accumulate->0 < 31,
        ensures
            final(self)@ == old(self)@.multiplied(operand1, operand2, accumulate, target, set_flags),
    {
        let mut result: u32 = self.register(operand1).wrapping_mul(self.register(operand2));
        if let Some(accumulate) = accumulate {
            result = result.wrapping_add(self.register(accumulate));
        }
        if set_flags {
            self.set_flag(flags::ZERO, result == 0);
            self.set_flag(flags::NEGATIVE, result.bit(31));
        }
        self.set_register(target, result);
    }

    fn multiply_long(
        &mut self,
        operand1: usize,
        operand2: usize,
        target_low: usize,
        target_high: usize,
        accumulate: bool,
        signed: bool,
        set_flags: bool,
    )
        requires
            operand1 < 31,
            operand2 < 31,
            target_low < 31,
            target_high < 31,
        ensures
            final(self)@ == old(self)@.long_multiplied(
                operand1,
                operand2,
                target_low,
                target_high,
                accumulate,
                signed,
                set_flags,
            ),
    {
        let operand1: u32 = self.register(operand1);
        let operand2: u32 = self.register(operand2);
        let accumulate: u64 = if accumulate {
            ((self.register(target_high) as u64) << 32) | (self.register(target_low) as u64)
        } else {
            0
        };
        let result: u64 = if signed {
            ((operand1 as i32) as i64).wrapping_mul((operand2 as i32) as i64).wrapping_add(
                accumulate as i64,
            ) as u64
        } else {
            proof {
                assert(operand1 * operand2 <= 0xffff_ffff * 0xffff_ffff) by (nonlinear_arith)
                    requires
                        operand1 <= 0xffff_ffff,
                        operand2 <= 0xffff_ffff,
                ;
                assert(0 <= operand1 * operand2) by (nonlinear_arith);
            }
            (operand1 as u64 * operand2 as u64).wrapping_add(accumulate)
        };
        let low: u32 = result as u32;
        let high: u32 = (result >> 32) as u32;
        if set_flags {
            self.set_flag(flags::ZERO, high == 0 && low == 0);
            self.set_flag(flags::NEGATIVE, high.bit(31));
        }
        self.set_register(target_low, low);
        self.set_register(target_high, high);
    }

    fn process(
        &mut self,
        cpsr: DataProcessingCpsr,
        opcode: DataProcessingOpcode,
        operand1: usize,
        operand2: Offset,
        target: usize,
    )
        requires
            (Instruction::DataProcessing {
                cpsr,
                opcode,
                operand1,
                operand2,
                target,
            }).well_formed(),
        ensures
            final(self)@ == old(self)@.processed(cpsr, opcode, operand1, operand2, target),
    {
        let old_carry: bool = self.flag(flags::CARRY);
        let set_flags: bool = matches!(cpsr, DataProcessingCpsr::SetFlags);
        let operand: u32 = self.resolve_offset(operand2, set_flags);
        let input: u32 = self.register(operand1);
        let outcome = compute(opcode, input, operand, old_carry);
        if set_flags {
            if let Some((carry, overflow)) = outcome.status {
                self.set_flag(flags::CARRY, carry);
                self.set_flag(flags::OVERFLOW, overflow);
            }
        }
        let result: u32 = outcome.value;
        if !matches!(
            opcode,
            DataProcessingOpcode::TestAdd
                | DataProcessingOpcode::TestAnd
                | DataProcessingOpcode::TestSubtract
                | DataProcessingOpcode::TestXor
        ) {
            self.set_register(target, result);
        }
        match cpsr {
            DataProcessingCpsr::SetFlags => {
                self.set_flag(flags::NEGATIVE, result.bit(31));
                self.set_flag(flags::ZERO, result == 0);
            },
            DataProcessingCpsr::LoadSpsr(spsr) => {
                self.cpsr = self.spsr[spsr];
            },
            DataProcessingCpsr::Unchanged => {},
        }
    }

    /// Completes an instruction with a condition: what remains of a step once
    /// the instruction has been fetched and decoded.
    pub fn complete<M: MemoryBus>(&mut self, mem: &mut M, cond: u8, instruction: Instruction)
        requires
            M::valid(old(mem).state()),
            instruction.well_formed(),
            completable::<M>(
                Machine { cpu: old(self)@, memory: old(mem).state() },
                cond,
                instruction,
            ),
        ensures
            M::valid(final(mem).state()),
            (Machine { cpu: final(self)@, memory: final(mem).state() }) == completed::<M>(
                Machine { cpu: old(self)@, memory: old(mem).state() },
                cond,
                instruction,
            ),
    {
        let condition: bool = self.condition(cond);
        self.pipeline_size = 1;
        assert(self@ == (CpuState { pipeline_size: 1, ..old(self)@ }));
        if !condition {
            self.cycle();
            return;
        }
        match instruction {
            Instruction::Interrupt => {
                self.software_interrupt();
            },
            Instruction::Branch { offset, link_register } => {
                self.branch(offset, link_register);
            },
            Instruction::LoadPsr { spsr, target } => {
                let value: u32 = match spsr {
                    Some(saved) => self.spsr[saved],
                    None => self.cpsr,
                };
                self.set_register(target, value);
            },
            Instruction::StorePsr { spsr, source, mask } => {
                self.store_status(spsr, source, mask);
            },
            Instruction::BlockDataTransfer { load, registers, load_spsr, index } => {
                self.block_transfer(mem, load, registers, load_spsr, index);
            },
            Instruction::SingleDataTransfer { load, index, target, offset, byte } => {
                self.single_transfer(mem, load, index, target, offset, byte);
            },
            Instruction::HalfwordDataTransfer { mode, index, target, offset } => {
                self.halfword_transfer(mem, mode, index, target, offset);
            },
            Instruction::BranchAndExchange { register } => {
                let target: u32 = self.register(register);
                self.set_flag(flags::THUMB, target.bit(0));
                self.set_pc(target);
            },
            Instruction::SingleDataSwap { source, target, base, byte } => {
                self.swap(mem, source, target, base, byte);
            },
            Instruction::Multiply { operand1, operand2, accumulate, target, set_flags } => {
                self.multiply(operand1, operand2, accumulate, target, set_flags);
            },
            Instruction::MultiplyLong {
                operand1,
                operand2,
                target_low,
                target_high,
                accumulate,
                signed,
                set_flags,
            } => {
                self.multiply_long(
                    operand1,
                    operand2,
                    target_low,
                    target_high,
                    accumulate,
                    signed,
                    set_flags,
                );
            },
            Instruction::DataProcessing { cpsr, opcode, operand1, operand2, target } => {
                self.process(cpsr, opcode, operand1, operand2, target);
            },
        }
        self.cycle();
    }
}

} // verus!
