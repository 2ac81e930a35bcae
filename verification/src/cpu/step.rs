//! Fetching, decoding and completing an instruction.

use crate::bits::Bits;
use crate::cpu::flags;
use crate::cpu::instruction::{
    HalfwordDataTransferMode, Indexing, Instruction, Offset, RegisterList,
};
use crate::cpu::mode::CpuMode;
use crate::cpu::model::{
    block_accessible, completable, completed, executable, place_accessible, CpuState, Machine,
};
use crate::cpu::parser::word_decoded;
use crate::cpu::thumb::thumb_decoded;
use crate::cpu::Cpu;
use crate::memory::MemoryBus;
use vstd::prelude::*;

verus! {

impl CpuState {
    /// The condition and the instruction that a fetched word stands for.
    pub open spec fn decoded(self, opcode: u32) -> Option<(u8, Instruction)> {
        match self.mode() {
            Some(mode) => if self.flag(flags::THUMB) {
                thumb_decoded(opcode, mode, self.pc())
            } else {
                word_decoded(opcode, mode)
            },
            None => None,
        }
    }
}

/// The word that is fetched next.
pub open spec fn fetched<M: MemoryBus>(machine: Machine<M::State>) -> u32 {
    M::word_at(machine.memory, machine.cpu.fetch_address())
}

/// Whether the next instruction can be executed: the processor is in one of its
/// modes, the word can be fetched, it is an instruction, and that can be
/// completed.
pub open spec fn can_step<M: MemoryBus>(machine: Machine<M::State>) -> bool {
    &&& machine.cpu.mode() is Some
    &&& M::readable(machine.memory, machine.cpu.fetch_address())
    &&& match machine.cpu.decoded(fetched::<M>(machine)) {
        Some((cond, instruction)) => completable::<M>(machine, cond, instruction),
        None => false,
    }
}

/// What keeps the next instruction from being executed.
#[derive(Debug, Clone, Copy, PartialEq, Eq, Structural)]
pub enum Obstacle {
    /// The status register holds no mode.
    Mode,
    /// The instruction cannot be fetched.
    Fetch,
    /// The fetched word is not an instruction.
    Instruction,
    /// A write to the status register would change the instruction width.
    Width,
    /// The sums of a branch run over the address space.
    Branch,
    /// The instruction reads or writes where the bus does not allow it.
    Access,
}

/// What keeps the next instruction from being executed, if anything does.
pub open spec fn obstacle_of<M: MemoryBus>(machine: Machine<M::State>) -> Option<Obstacle> {
    if machine.cpu.mode() is None {
        Some(Obstacle::Mode)
    } else if !M::readable(machine.memory, machine.cpu.fetch_address()) {
        Some(Obstacle::Fetch)
    } else {
        match machine.cpu.decoded(fetched::<M>(machine)) {
            None => Some(Obstacle::Instruction),
            Some((cond, instruction)) => if completable::<M>(machine, cond, instruction) {
                None
            } else if instruction is StorePsr {
                Some(Obstacle::Width)
            } else if instruction is Branch {
                Some(Obstacle::Branch)
            } else {
                Some(Obstacle::Access)
            },
        }
    }
}

/// The machine after the next instruction.
pub open spec fn stepped<M: MemoryBus>(machine: Machine<M::State>) -> Machine<M::State> {
    match machine.cpu.decoded(fetched::<M>(machine)) {
        Some((cond, instruction)) => completed::<M>(machine, cond, instruction),
        None => machine,
    }
}

impl Cpu {
    /// The address of the next instruction.
    fn fetch_address(&self) -> (r: u32)
        ensures
            r == self@.fetch_address(),
    {
        let size: u32 = self.instruction_size();
        let held: u32 = self.pipeline_size as u32;
        assert(0 <= held * size <= 255 * 4) by (nonlinear_arith)
            requires
                held <= 255,
                size <= 4,
        ;
        self.pc().wrapping_sub(held * size)
    }

    /// Decodes a fetched word, if it is an instruction.
    fn decode(&self, opcode: u32) -> (r: Option<(u8, Instruction)>)
        ensures
            r == self@.decoded(opcode),
            r is Some ==> (r->0).1.well_formed(),
    {
        match CpuMode::try_from((self.cpsr & 0b1111) as u8) {
            Ok(mode) => {
                let decoded = if self.flag(flags::THUMB) {
                    Instruction::parse_thumb(opcode, mode, self.pc())
                } else {
                    Instruction::parse(opcode, mode)
                };
                match decoded {
                    Ok(decoded) => Some(decoded),
                    Err(_) => None,
                }
            },
            Err(_) => None,
        }
    }

    /// Executes the next instruction.
    pub fn step<M: MemoryBus>(&mut self, mem: &mut M)
        requires
            M::valid(old(mem).state()),
            can_step::<M>(Machine { cpu: old(self)@, memory: old(mem).state() }),
        ensures
            M::valid(final(mem).state()),
            (Machine { cpu: final(self)@, memory: final(mem).state() }) == stepped::<M>(
                Machine { cpu: old(self)@, memory: old(mem).state() },
            ),
    {
        let opcode: u32 = mem.read(self.fetch_address());
        if let Some((cond, instruction)) = self.decode(opcode) {
            self.complete(mem, cond, instruction);
        }
    }

    fn can_transfer_block<M: MemoryBus>(
        &self,
        mem: &M,
        load: bool,
        registers: RegisterList,
        index: Indexing,
    ) -> (r: bool)
        requires
            M::valid(mem.state()),
            index.base < 31,
        ensures
            r == block_accessible::<M>(
                mem.state(),
                load,
                self@.block_start(registers, index),
                registers.places().len(),
            ),
    {
        let start: u32 = self.block_start(registers, index);
        let count: u32 = registers.len();
        let mut i: u32 = 0;
        while i < count
            invariant
                i <= count <= 16,
                count == registers.places().len(),
                start == self@.block_start(registers, index),
                M::valid(mem.state()),
                forall|j: int|
                    0 <= j < i ==> #[trigger] place_accessible::<M>(mem.state(), load, start, j),
            decreases count - i,
        {
            let address: u32 = start.wrapping_add(4 * i);
            let allowed: bool = if load { mem.can_read(address) } else { mem.can_write(address, 4) };
            if !allowed {
                assert(!place_accessible::<M>(mem.state(), load, start, i as int));
                return false;
            }
            i += 1;
        }
        true
    }

    fn transfer_address(&self, index: Indexing, offset: Offset) -> (r: u32)
        requires
            index.base < 31,
            offset.well_formed(),
        ensures
            r == self@.operand_fetched(offset).indexed_address(index, self@.operand(offset).0),
    {
        let mut probe: Cpu = *self;
        let value: u32 = probe.resolve_offset(offset, false);
        probe.resolve_indexing(index, value)
    }

    /// Tells whether an instruction can be executed.
    fn can_execute<M: MemoryBus>(&self, mem: &M, instruction: Instruction) -> (r: bool)
        requires
            M::valid(mem.state()),
            instruction.well_formed(),
        ensures
            r == executable::<M>(Machine { cpu: self@, memory: mem.state() }, instruction),
    {
        match instruction {
            Instruction::Branch { offset, link_register } => match link_register {
                Some(link) => if self.flag(flags::THUMB) {
                    self.register(link) <= 0xffff_ffff - offset as u32 && self.pc() >= 1
                } else {
                    self.pc() >= 4
                },
                None => true,
            },
            Instruction::StorePsr { spsr, source, mask } => {
                if spsr.is_some() || !mask.bit(flags::THUMB) {
                    return true;
                }
                let mut probe: Cpu = *self;
                let value: u32 = probe.resolve_offset(source, false);
                self.flag(flags::THUMB) == value.bit(flags::THUMB)
            },
            Instruction::BlockDataTransfer { load, registers, load_spsr, index } => {
                self.can_transfer_block(mem, load, registers, index)
            },
            Instruction::SingleDataTransfer { load, index, target, offset, byte } => {
                let address: u32 = self.transfer_address(index, offset);
                if load {
                    mem.can_read(address)
                } else {
                    mem.can_write(address, if byte { 1 } else { 4 })
                }
            },
            Instruction::HalfwordDataTransfer { mode, index, target, offset } => {
                let address: u32 = self.transfer_address(index, offset);
                if matches!(mode, HalfwordDataTransferMode::StoreHalfword) {
                    mem.can_write(address, 2)
                } else {
                    mem.can_read(address)
                }
            },
            Instruction::SingleDataSwap { source, target, base, byte } => {
                let address: u32 = self.register(base);
                mem.can_read(address) && mem.can_write(address, if byte { 1 } else { 4 })
            },
            _ => true,
        }
    }

    /// Tells what keeps the next instruction from being executed, if anything
    /// does.
    pub fn obstacle<M: MemoryBus>(&self, mem: &M) -> (r: Option<Obstacle>)
        requires
            M::valid(mem.state()),
        ensures
            r == obstacle_of::<M>(Machine { cpu: self@, memory: mem.state() }),
            r is None <==> can_step::<M>(Machine { cpu: self@, memory: mem.state() }),
    {
        if self.can_step(mem) {
            return None;
        }
        if CpuMode::try_from((self.cpsr & 0b1111) as u8).is_err() {
            return Some(Obstacle::Mode);
        }
        let address: u32 = self.fetch_address();
        if !mem.can_read(address) {
            return Some(Obstacle::Fetch);
        }
        match self.decode(mem.read(address)) {
            None => Some(Obstacle::Instruction),
            Some((_, Instruction::StorePsr { .. })) => Some(Obstacle::Width),
            Some((_, Instruction::Branch { .. })) => Some(Obstacle::Branch),
            Some(_) => Some(Obstacle::Access),
        }
    }

    /// Tells whether the next instruction can be executed.
    pub fn can_step<M: MemoryBus>(&self, mem: &M) -> (r: bool)
        requires
            M::valid(mem.state()),
        ensures
            r == can_step::<M>(Machine { cpu: self@, memory: mem.state() }),
    {
        let address: u32 = self.fetch_address();
        if !mem.can_read(address) {
            return false;
        }
        let opcode: u32 = mem.read(address);
        match self.decode(opcode) {
            Some((cond, instruction)) => {
                if self.condition(cond) {
                    let mut issued: Cpu = *self;
                    issued.pipeline_size = 1;
                    assert(issued@ == (CpuState { pipeline_size: 1, ..self@ }));
                    issued.can_execute(mem, instruction)
                } else {
                    true
                }
            },
            None => false,
        }
    }
}

} // verus!
