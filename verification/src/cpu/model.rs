//! What the processor does, as functions from states to states.

use crate::bits::Bits;
use crate::cpu::arithmetic::{barrel_shifted, computed, keeps_result, rotated_right};
use crate::cpu::flags;
use crate::cpu::instruction::{
    DataProcessingCpsr, DataProcessingOpcode, HalfwordDataTransferMode, Indexing, Instruction,
    Offset, OffsetShift, RegisterList,
};
use crate::cpu::mode::{banked, mode_of, saved_status_of, CpuMode};
use crate::memory::MemoryBus;
use vstd::prelude::*;

verus! {

/// What the processor holds.
#[verifier::ext_equal]
pub struct CpuState {
    pub registers: Seq<u32>,
    pub cpsr: u32,
    pub spsr: Seq<u32>,
    pub skip_test: bool,
    pub pipeline_size: u8,
    pub cycle: u16,
}

/// A processor and what lies behind its bus.
pub struct Machine<S> {
    pub cpu: CpuState,
    pub memory: S,
}

impl CpuState {
    /// Whether there are as many registers as the processor has.
    pub open spec fn well_formed(self) -> bool {
        self.registers.len() == 31 && self.spsr.len() == 5
    }

    /// Whether a flag is set.
    pub open spec fn flag(self, flag: u32) -> bool {
        self.cpsr.has_bit(flag)
    }

    /// The state with one flag replaced.
    pub open spec fn with_flag(self, flag: u32, value: bool) -> CpuState {
        CpuState { cpsr: self.cpsr.with_bit(flag, value), ..self }
    }

    /// The number of bytes of an instruction.
    pub open spec fn instruction_size(self) -> u32 {
        if self.flag(flags::THUMB) { 2 } else { 4 }
    }

    /// The program counter.
    pub open spec fn pc(self) -> u32 {
        self.registers[15]
    }

    /// The state one cycle later: a pipeline that is not full fetches another
    /// instruction, which moves the program counter on.
    pub open spec fn ticked(self) -> CpuState {
        let cycle = self.cycle.wrapping_add(1);
        if self.pipeline_size < 2 {
            CpuState {
                cycle,
                pipeline_size: (self.pipeline_size + 1) as u8,
                registers: self.registers.update(
                    15,
                    self.pc().wrapping_add(self.instruction_size()),
                ),
                ..self
            }
        } else {
            CpuState { cycle, ..self }
        }
    }

    /// The state after a jump: the program counter is aligned, the pipeline is
    /// emptied and begins to fill.
    pub open spec fn jumped(self, target: u32) -> CpuState {
        CpuState {
            registers: self.registers.update(
                15,
                target & !((self.instruction_size() - 1) as u32),
            ),
            pipeline_size: 0,
            ..self
        }.ticked()
    }

    /// The state with one register replaced; writing the program counter is a
    /// jump.
    pub open spec fn with_register(self, register: int, value: u32) -> CpuState {
        if register == 15 {
            self.jumped(value)
        } else {
            CpuState { registers: self.registers.update(register, value), ..self }
        }
    }

    /// Whether the condition of an instruction holds. The low bit of the code
    /// negates the test that the other three select.
    pub open spec fn condition(self, cond: u8) -> bool {
        let test = cond >> 1;
        let zero = self.flag(flags::ZERO);
        let carry = self.flag(flags::CARRY);
        let negative = self.flag(flags::NEGATIVE);
        let overflow = self.flag(flags::OVERFLOW);
        let holds = if test == 0 {
            zero
        } else if test == 1 {
            carry
        } else if test == 2 {
            negative
        } else if test == 3 {
            overflow
        } else if test == 4 {
            carry && !zero
        } else if test == 5 {
            negative == overflow
        } else if test == 6 {
            !zero && negative == overflow
        } else {
            true
        };
        holds == (cond & 1 == 0)
    }

    /// The base register with the offset applied.
    pub open spec fn moved_base(self, index: Indexing, offset: u32) -> u32 {
        let base = self.registers[index.base as int];
        if index.subtract { base.wrapping_sub(offset) } else { base.wrapping_add(offset) }
    }

    /// The address that a transfer uses.
    pub open spec fn indexed_address(self, index: Indexing, offset: u32) -> u32 {
        if index.modify_first {
            self.moved_base(index, offset)
        } else {
            self.registers[index.base as int]
        }
    }

    /// The state after the base register of a transfer has been updated, which
    /// is always so where the offset applies only after the access.
    pub open spec fn indexed(self, index: Indexing, offset: u32) -> CpuState {
        if index.write_back || !index.modify_first {
            self.with_register(index.base as int, self.moved_base(index, offset))
        } else {
            self
        }
    }

    /// Whether fetching an operand takes a cycle: its distance is in a register.
    pub open spec fn operand_takes_a_cycle(offset: Offset) -> bool {
        match offset {
            Offset::ShiftedRegister { register, shift_type, shift } => shift is Register,
            _ => false,
        }
    }

    /// The state that an operand is taken from: a distance in a register takes
    /// one cycle to fetch.
    pub open spec fn operand_fetched(self, offset: Offset) -> CpuState {
        if Self::operand_takes_a_cycle(offset) { self.ticked() } else { self }
    }

    /// The value of an operand and the carry that the shifter leaves, if any.
    /// A distance is read before the cycle that fetching it takes, the shifted
    /// register after it.
    pub open spec fn operand(self, offset: Offset) -> (u32, Option<bool>) {
        match offset {
            Offset::Immediate { value, carry } => (value, carry),
            Offset::Register(register) => (self.registers[register as int], None),
            Offset::ShiftedRegister { register, shift_type, shift } => {
                let distance = match shift {
                    OffsetShift::Register(distance) => self.registers[distance as int] & 0xff,
                    OffsetShift::Immediate(distance) => distance,
                };
                let shift_type = if shift is Register && distance == 0 { 0 } else { shift_type };
                barrel_shifted(
                    self.operand_fetched(offset).registers[register as int],
                    shift_type,
                    distance,
                    self.flag(flags::CARRY),
                )
            },
        }
    }

    /// The state after an operand has been resolved.
    pub open spec fn operand_resolved(self, offset: Offset, with_flags: bool) -> CpuState {
        let carry = self.operand(offset).1;
        if with_flags && carry is Some {
            self.operand_fetched(offset).with_flag(flags::CARRY, carry->0)
        } else {
            self.operand_fetched(offset)
        }
    }

    /// The state after a software interrupt: the supervisor mode with the
    /// status saved and interrupts disabled, at its vector.
    pub open spec fn interrupted(self) -> CpuState {
        let linked = self.with_register(
            banked(CpuMode::Supervisor, 14),
            self.pc().wrapping_sub(self.instruction_size()),
        );
        CpuState {
            spsr: linked.spsr.update(
                saved_status_of(CpuMode::Supervisor)->0 as int,
                linked.cpsr,
            ),
            cpsr: linked.cpsr & !0b1111u32 | CpuMode::Supervisor.number() as u32,
            ..linked
        }.with_flag(flags::THUMB, false).with_flag(flags::DISABLE_IRQ, true).jumped(0x08)
    }

    /// Whether the additions and subtractions of a branch stay in 32 bits.
    pub open spec fn branch_in_range(self, offset: i32, link_register: Option<usize>) -> bool {
        match link_register {
            Some(link) => if self.flag(flags::THUMB) {
                self.registers[link as int] + (offset as u32) <= u32::MAX && self.pc() >= 1
            } else {
                self.pc() >= 4
            },
            None => true,
        }
    }

    /// The state after a branch.
    pub open spec fn branched(self, offset: i32, link_register: Option<usize>) -> CpuState {
        match link_register {
            Some(link) => if self.flag(flags::THUMB) {
                self.jumped(
                    (self.registers[link as int] + (offset as u32)) as u32,
                ).with_register(link as int, (self.pc() - 1) as u32)
            } else {
                self.with_register(link as int, (self.pc() - 4) as u32).jumped(
                    self.pc().wrapping_add_signed(offset),
                )
            },
            None => self.jumped(self.pc().wrapping_add_signed(offset)),
        }
    }

    /// The status register that an instruction names.
    pub open spec fn status(self, spsr: Option<usize>) -> u32 {
        match spsr {
            Some(index) => self.spsr[index as int],
            None => self.cpsr,
        }
    }

    /// Whether writing a status register leaves the instruction width alone.
    pub open spec fn status_write_keeps_width(
        self,
        spsr: Option<usize>,
        source: Offset,
        mask: u32,
    ) -> bool {
        spsr is None ==> (!mask.has_bit(flags::THUMB) || self.flag(flags::THUMB) == self.operand(
            source,
        ).0.has_bit(flags::THUMB))
    }

    /// The state after the masked bits of a status register have been written.
    pub open spec fn status_written(self, spsr: Option<usize>, source: Offset, mask: u32) -> CpuState {
        let value = self.operand(source).0;
        let after = self.operand_fetched(source);
        let merged = after.status(spsr) & !mask | value & mask;
        match spsr {
            Some(index) => CpuState { spsr: after.spsr.update(index as int, merged), ..after },
            None => CpuState { cpsr: merged, ..after },
        }
    }

    /// The lowest address of a block transfer.
    pub open spec fn block_start(self, registers: RegisterList, index: Indexing) -> u32 {
        let base = self.registers[index.base as int];
        let size = (registers.places().len() * 4) as u32;
        let low = if index.subtract { base.wrapping_sub(size) } else { base };
        if index.modify_first != index.subtract { low.wrapping_add(4) } else { low }
    }

    /// The base register after a block transfer that writes it back.
    pub open spec fn block_end(self, registers: RegisterList, index: Indexing) -> u32 {
        self.moved_base(index, (registers.places().len() * 4) as u32)
    }

    /// The state after a data processing instruction.
    pub open spec fn processed(
        self,
        cpsr: DataProcessingCpsr,
        opcode: DataProcessingOpcode,
        operand1: usize,
        operand2: Offset,
        target: usize,
    ) -> CpuState {
        let set_flags = cpsr is SetFlags;
        let fetched = self.operand_resolved(operand2, set_flags);
        let outcome = computed(
            opcode,
            fetched.registers[operand1 as int],
            self.operand(operand2).0,
            self.flag(flags::CARRY),
        );
        let flagged = if set_flags && outcome.status is Some {
            fetched.with_flag(flags::CARRY, (outcome.status->0).0).with_flag(
                flags::OVERFLOW,
                (outcome.status->0).1,
            )
        } else {
            fetched
        };
        let kept = if keeps_result(opcode) {
            flagged.with_register(target as int, outcome.value)
        } else {
            flagged
        };
        match cpsr {
            DataProcessingCpsr::SetFlags => kept.with_flag(
                flags::NEGATIVE,
                outcome.value.has_bit(31),
            ).with_flag(flags::ZERO, outcome.value == 0),
            DataProcessingCpsr::LoadSpsr(index) => CpuState {
                cpsr: kept.spsr[index as int],
                ..kept
            },
            DataProcessingCpsr::Unchanged => kept,
        }
    }

    /// The 32-bit product of two registers, with a third added.
    pub open spec fn product(self, operand1: usize, operand2: usize, accumulate: Option<usize>) -> u32 {
        let product = self.registers[operand1 as int].wrapping_mul(self.registers[operand2 as int]);
        match accumulate {
            Some(register) => product.wrapping_add(self.registers[register as int]),
            None => product,
        }
    }

    /// The state after a multiplication.
    pub open spec fn multiplied(
        self,
        operand1: usize,
        operand2: usize,
        accumulate: Option<usize>,
        target: usize,
        set_flags: bool,
    ) -> CpuState {
        let result = self.product(operand1, operand2, accumulate);
        let flagged = if set_flags {
            self.with_flag(flags::ZERO, result == 0).with_flag(flags::NEGATIVE, result.has_bit(31))
        } else {
            self
        };
        flagged.with_register(target as int, result)
    }

    /// The 64-bit product of two registers, taken as signed or unsigned
    /// numbers, with a register pair added.
    pub open spec fn long_product(
        self,
        operand1: usize,
        operand2: usize,
        target_low: usize,
        target_high: usize,
        accumulate: bool,
        signed: bool,
    ) -> u64 {
        let a = self.registers[operand1 as int];
        let b = self.registers[operand2 as int];
        let sum = if accumulate {
            ((self.registers[target_high as int] as u64) << 32) | (
            self.registers[target_low as int] as u64)
        } else {
            0
        };
        if signed {
            ((a as i32) as i64).wrapping_mul((b as i32) as i64).wrapping_add(sum as i64) as u64
        } else {
            ((a * b) as u64).wrapping_add(sum)
        }
    }

    /// The state after a multiplication with a 64-bit result.
    pub open spec fn long_multiplied(
        self,
        operand1: usize,
        operand2: usize,
        target_low: usize,
        target_high: usize,
        accumulate: bool,
        signed: bool,
        set_flags: bool,
    ) -> CpuState {
        let result = self.long_product(
            operand1,
            operand2,
            target_low,
            target_high,
            accumulate,
            signed,
        );
        let low = result as u32;
        let high = (result >> 32) as u32;
        let flagged = if set_flags {
            self.with_flag(flags::ZERO, high == 0 && low == 0).with_flag(
                flags::NEGATIVE,
                high.has_bit(31),
            )
        } else {
            self
        };
        flagged.with_register(target_low as int, low).with_register(target_high as int, high)
    }

    /// The mode that the processor is in.
    pub open spec fn mode(self) -> Option<CpuMode> {
        mode_of((self.cpsr & 0b1111) as u8)
    }

    /// The address of the next instruction, which the program counter is ahead
    /// of by what the pipeline holds.
    pub open spec fn fetch_address(self) -> u32 {
        self.pc().wrapping_sub((self.pipeline_size * self.instruction_size()) as u32)
    }
}

/// What a load gives of the word on the bus: its low byte, or the word rotated
/// so that the addressed byte comes first.
pub open spec fn loaded(word: u32, address: u32, byte: bool) -> u32 {
    if byte { word & 0xff } else { rotated_right(word, (8 * (address % 4)) as u32) }
}

/// What a half word transfer loads of the word on the bus.
pub open spec fn half_loaded(word: u32, mode: HalfwordDataTransferMode) -> u32 {
    match mode {
        HalfwordDataTransferMode::LoadSignedByte => ((word as i8) as i32) as u32,
        HalfwordDataTransferMode::LoadSignedHalfword => ((word as i16) as i32) as u32,
        HalfwordDataTransferMode::LoadUnsignedHalfword => (word as u16) as u32,
        HalfwordDataTransferMode::StoreHalfword => word,
    }
}

/// The machine after the first `count` registers of a block transfer.
pub open spec fn block_moved<M: MemoryBus>(
    machine: Machine<M::State>,
    load: bool,
    places: Seq<usize>,
    start: u32,
    count: nat,
) -> Machine<M::State>
    decreases count,
{
    if count == 0 {
        machine
    } else {
        let before = block_moved::<M>(machine, load, places, start, (count - 1) as nat);
        let address = start.wrapping_add((4 * (count - 1)) as u32);
        let place = places[count - 1] as int;
        if load {
            Machine {
                cpu: before.cpu.with_register(place, M::word_at(before.memory, address)),
                ..before
            }
        } else {
            Machine {
                memory: M::written(before.memory, address, before.cpu.registers[place], 4),
                ..before
            }
        }
    }
}

/// The machine after a block transfer.
pub open spec fn block_transferred<M: MemoryBus>(
    machine: Machine<M::State>,
    load: bool,
    registers: RegisterList,
    load_spsr: Option<usize>,
    index: Indexing,
) -> Machine<M::State> {
    let cpu = machine.cpu;
    let moved = block_moved::<M>(
        Machine { cpu: cpu.ticked(), ..machine },
        load,
        registers.places(),
        cpu.block_start(registers, index),
        registers.places().len(),
    );
    let based = if index.write_back {
        moved.cpu.with_register(index.base as int, cpu.block_end(registers, index))
    } else {
        moved.cpu
    };
    let restored = match load_spsr {
        Some(saved) => CpuState { cpsr: based.spsr[saved as int], ..based },
        None => based,
    };
    Machine { cpu: restored, memory: moved.memory }
}

/// The machine after an instruction whose condition holds, but for the cycle
/// that ends it.
pub open spec fn executed<M: MemoryBus>(
    machine: Machine<M::State>,
    instruction: Instruction,
) -> Machine<M::State> {
    let cpu = machine.cpu;
    let memory = machine.memory;
    match instruction {
        Instruction::Interrupt => Machine { cpu: cpu.interrupted(), memory },
        Instruction::Branch { offset, link_register } => Machine {
            cpu: cpu.branched(offset, link_register),
            memory,
        },
        Instruction::LoadPsr { spsr, target } => Machine {
            cpu: cpu.with_register(target as int, cpu.status(spsr)),
            memory,
        },
        Instruction::StorePsr { spsr, source, mask } => Machine {
            cpu: cpu.status_written(spsr, source, mask),
            memory,
        },
        Instruction::BlockDataTransfer { load, registers, load_spsr, index } => block_transferred::<
            M,
        >(machine, load, registers, load_spsr, index),
        Instruction::SingleDataTransfer { load, index, target, offset, byte } => {
            let value = cpu.operand(offset).0;
            let fetched = cpu.operand_fetched(offset);
            let address = fetched.indexed_address(index, value);
            let ready = fetched.indexed(index, value).ticked();
            if load {
                Machine {
                    cpu: ready.with_register(
                        target as int,
                        loaded(M::word_at(memory, address), address, byte),
                    ),
                    memory,
                }
            } else {
                Machine {
                    cpu: ready,
                    memory: M::written(
                        memory,
                        address,
                        ready.registers[target as int],
                        if byte { 1 } else { 4 },
                    ),
                }
            }
        },
        Instruction::HalfwordDataTransfer { mode, index, target, offset } => {
            let value = cpu.operand(offset).0;
            let fetched = cpu.operand_fetched(offset);
            let address = fetched.indexed_address(index, value);
            let moved = fetched.indexed(index, value).ticked();
            let ready = if address & 1 != 0 && mode != HalfwordDataTransferMode::LoadSignedByte {
                CpuState { skip_test: true, ..moved }
            } else {
                moved
            };
            if mode == HalfwordDataTransferMode::StoreHalfword {
                Machine {
                    cpu: ready,
                    memory: M::written(memory, address, ready.registers[target as int], 2),
                }
            } else {
                Machine {
                    cpu: ready.with_register(
                        target as int,
                        half_loaded(M::word_at(memory, address), mode),
                    ),
                    memory,
                }
            }
        },
        Instruction::BranchAndExchange { register } => {
            let target = cpu.registers[register as int];
            Machine {
                cpu: cpu.with_flag(flags::THUMB, target.has_bit(0)).jumped(target),
                memory,
            }
        },
        Instruction::SingleDataSwap { source, target, base, byte } => {
            let address = cpu.registers[base as int];
            Machine {
                cpu: cpu.with_register(
                    target as int,
                    loaded(M::word_at(memory, address), address, byte),
                ),
                memory: M::written(
                    memory,
                    address,
                    cpu.registers[source as int],
                    if byte { 1 } else { 4 },
                ),
            }
        },
        Instruction::Multiply { operand1, operand2, accumulate, target, set_flags } => Machine {
            cpu: cpu.multiplied(operand1, operand2, accumulate, target, set_flags),
            memory,
        },
        Instruction::MultiplyLong {
            operand1,
            operand2,
            target_low,
            target_high,
            accumulate,
            signed,
            set_flags,
        } => Machine {
            cpu: cpu.long_multiplied(
                operand1,
                operand2,
                target_low,
                target_high,
                accumulate,
                signed,
                set_flags,
            ),
            memory,
        },
        Instruction::DataProcessing { cpsr, opcode, operand1, operand2, target } => Machine {
            cpu: cpu.processed(cpsr, opcode, operand1, operand2, target),
            memory,
        },
    }
}

/// Whether an instruction can be executed: every access to memory is one that
/// the bus allows, the additions of a branch do not overflow, and a write to
/// the status register leaves the instruction width alone.
pub open spec fn executable<M: MemoryBus>(
    machine: Machine<M::State>,
    instruction: Instruction,
) -> bool {
    let cpu = machine.cpu;
    let memory = machine.memory;
    match instruction {
        Instruction::Branch { offset, link_register } => cpu.branch_in_range(offset, link_register),
        Instruction::StorePsr { spsr, source, mask } => cpu.status_write_keeps_width(
            spsr,
            source,
            mask,
        ),
        Instruction::BlockDataTransfer { load, registers, load_spsr, index } => block_accessible::<
            M,
        >(memory, load, cpu.block_start(registers, index), registers.places().len()),
        Instruction::SingleDataTransfer { load, index, target, offset, byte } => {
            let address = cpu.operand_fetched(offset).indexed_address(index, cpu.operand(offset).0);
            if load {
                M::readable(memory, address)
            } else {
                M::writable(memory, address, if byte { 1 } else { 4 })
            }
        },
        Instruction::HalfwordDataTransfer { mode, index, target, offset } => {
            let address = cpu.operand_fetched(offset).indexed_address(index, cpu.operand(offset).0);
            if mode == HalfwordDataTransferMode::StoreHalfword {
                M::writable(memory, address, 2)
            } else {
                M::readable(memory, address)
            }
        },
        Instruction::SingleDataSwap { source, target, base, byte } => {
            let address = cpu.registers[base as int];
            M::readable(memory, address) && M::writable(memory, address, if byte { 1 } else { 4 })
        },
        _ => true,
    }
}

/// Whether the bus allows the access for one register of a block transfer.
pub open spec fn place_accessible<M: MemoryBus>(
    memory: M::State,
    load: bool,
    start: u32,
    i: int,
) -> bool {
    let address = start.wrapping_add((4 * i) as u32);
    if load { M::readable(memory, address) } else { M::writable(memory, address, 4) }
}

/// Whether the bus allows the accesses of a block transfer.
pub open spec fn block_accessible<M: MemoryBus>(
    memory: M::State,
    load: bool,
    start: u32,
    count: nat,
) -> bool {
    forall|i: int| 0 <= i < count ==> #[trigger] place_accessible::<M>(memory, load, start, i)
}

/// The machine after an instruction with a condition: the pipeline gives up
/// the instruction, which takes effect only if its condition holds, and
/// fetches the next one.
pub open spec fn completed<M: MemoryBus>(
    machine: Machine<M::State>,
    cond: u8,
    instruction: Instruction,
) -> Machine<M::State> {
    let issued = Machine { cpu: CpuState { pipeline_size: 1, ..machine.cpu }, ..machine };
    let done = if machine.cpu.condition(cond) { executed::<M>(issued, instruction) } else { issued };
    Machine { cpu: done.cpu.ticked(), ..done }
}

/// Whether an instruction with a condition can be completed.
pub open spec fn completable<M: MemoryBus>(
    machine: Machine<M::State>,
    cond: u8,
    instruction: Instruction,
) -> bool {
    machine.cpu.condition(cond) ==> executable::<M>(
        Machine { cpu: CpuState { pipeline_size: 1, ..machine.cpu }, ..machine },
        instruction,
    )
}

} // verus!
