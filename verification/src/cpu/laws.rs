//! What holds of every instruction.

use crate::bits::{lemma_digits_u8, set_bit_is_local_u32, Bits};
use crate::cpu::arithmetic::{computed, keeps_result};
use crate::cpu::flags;
use crate::cpu::instruction::{
    saved_in_range, DataProcessingCpsr, DataProcessingOpcode, Indexing, Instruction, Offset,
    RegisterList,
};
use crate::cpu::mode::{banked, CpuMode};
use crate::cpu::model::{
    block_moved, block_transferred, completed, executable, executed, half_loaded, loaded, CpuState,
    Machine,
};
use crate::cpu::parser::decoded_word_is_well_formed;
use crate::cpu::step::{can_step, fetched, stepped};
use crate::cpu::thumb::{addressed_half, decoded_half_is_well_formed};
use crate::memory::MemoryBus;
use vstd::prelude::*;

verus! {

/// Of two condition codes that differ in the lowest bit exactly one holds.
#[verifier::spinoff_prover]
#[verifier::rlimit(50)]
pub proof fn conditions_come_in_pairs(cpu: CpuState, cond: u8)
    requires
        cond & 1 == 0,
        cond < 0xff,
    ensures
        cpu.condition((cond + 1) as u8) == !cpu.condition(cond),
{
    lemma_digits_u8(cond);
    lemma_digits_u8((cond + 1) as u8);
}

/// The condition with the number 14 always holds, and the one with the number
/// 15 never does.
#[verifier::spinoff_prover]
#[verifier::rlimit(50)]
pub proof fn last_conditions_are_constant(cpu: CpuState)
    ensures
        cpu.condition(14),
        !cpu.condition(15),
{
    lemma_digits_u8(14);
    lemma_digits_u8(15);
}

/// After a jump and the cycle that ends its instruction, the instruction that
/// is fetched next is the one at the aligned target, and the pipeline is full.
pub proof fn jump_leads_to_target(cpu: CpuState, target: u32)
    requires
        cpu.well_formed(),
    ensures
        cpu.jumped(target).ticked().fetch_address() == target & !((cpu.instruction_size()
            - 1) as u32),
        cpu.jumped(target).ticked().pipeline_size == 2,
{
    let size = cpu.instruction_size();
    let first = cpu.jumped(target);
    let second = first.ticked();
    let start = target & !((size - 1) as u32);
    assert(first.pipeline_size == 1 && first.pc() == start.wrapping_add(size));
    assert(second.pipeline_size == 2 && second.pc() == first.pc().wrapping_add(size));
    assert(second.pipeline_size * second.instruction_size() == 2 * size) by (nonlinear_arith)
        requires
            second.pipeline_size == 2,
            second.instruction_size() == size,
    ;
}

/// An instruction whose condition does not hold changes nothing but the time
/// and the place in the program: the next instruction is fetched.
pub proof fn skipped_instruction_only_passes<M: MemoryBus>(
    machine: Machine<M::State>,
    cond: u8,
    instruction: Instruction,
)
    requires
        machine.cpu.well_formed(),
        machine.cpu.pipeline_size == 2,
        !machine.cpu.condition(cond),
    ensures
        ({
            let after = completed::<M>(machine, cond, instruction);
            &&& after.memory == machine.memory
            &&& after.cpu == (CpuState {
                cycle: machine.cpu.cycle.wrapping_add(1),
                registers: machine.cpu.registers.update(15, after.cpu.pc()),
                ..machine.cpu
            })
            &&& after.cpu.fetch_address() == machine.cpu.fetch_address().wrapping_add(
                machine.cpu.instruction_size(),
            )
        }),
{
    let after = completed::<M>(machine, cond, instruction);
    assert(after.cpu.registers =~= machine.cpu.registers.update(15, after.cpu.pc()));
}

/// Resolving an operand changes nothing but the carry, and only where the shifter
/// gives one that is wanted, and the time and the program counter, and only where
/// a distance is fetched from a register.
pub proof fn operand_resolution_is_local(
    cpu: CpuState,
    offset: Offset,
    with_flags: bool,
    register: int,
    bit: u32,
)
    requires
        cpu.well_formed(),
        0 <= register < 31,
        bit < 32,
    ensures
        ({
            let after = cpu.operand_resolved(offset, with_flags);
            let carry = cpu.operand(offset).1;
            &&& after.well_formed()
            &&& register != 15 ==> after.registers[register] == cpu.registers[register]
            &&& after.spsr == cpu.spsr
            &&& after.skip_test == cpu.skip_test
            &&& bit != flags::CARRY ==> after.flag(bit) == cpu.flag(bit)
            &&& after.flag(flags::CARRY) == (if with_flags && carry is Some {
                carry->0
            } else {
                cpu.flag(flags::CARRY)
            })
            &&& !with_flags || carry is None ==> after.cpsr == cpu.cpsr
            &&& offset is Register ==> carry is None
            &&& offset matches Offset::Immediate { value, carry: given } ==> carry == given
            &&& !CpuState::operand_takes_a_cycle(offset) ==> after.registers == cpu.registers
                && after.cycle == cpu.cycle && after.pipeline_size == cpu.pipeline_size
        }),
{
    let carry = cpu.operand(offset).1;
    if with_flags && carry is Some {
        set_bit_is_local_u32(cpu.cpsr, flags::CARRY, carry->0, bit);
        set_bit_is_local_u32(cpu.cpsr, flags::CARRY, carry->0, flags::CARRY);
    }
}

/// Whether a pipeline has begun to fill.
spec fn filling(cpu: CpuState) -> bool {
    cpu.well_formed() && 1 <= cpu.pipeline_size <= 2
}

proof fn lemma_register_fills(cpu: CpuState, register: int, value: u32)
    requires
        filling(cpu),
        0 <= register < 31,
    ensures
        filling(cpu.ticked()),
        filling(cpu.jumped(value)),
        filling(cpu.with_register(register, value)),
{
}

proof fn lemma_operand_fills(cpu: CpuState, offset: Offset, with_flags: bool)
    requires
        filling(cpu),
    ensures
        filling(cpu.operand_fetched(offset)),
        filling(cpu.operand_resolved(offset, with_flags)),
{
    lemma_register_fills(cpu, 0, 0);
}

proof fn lemma_transfer_fills(cpu: CpuState, index: Indexing, offset: Offset)
    requires
        filling(cpu),
        index.base < 31,
    ensures
        filling(
            cpu.operand_fetched(offset).indexed(index, cpu.operand(offset).0).ticked(),
        ),
{
    lemma_operand_fills(cpu, offset, false);
    let ready = cpu.operand_fetched(offset);
    let value = cpu.operand(offset).0;
    lemma_register_fills(ready, index.base as int, ready.moved_base(index, value));
    lemma_register_fills(ready.indexed(index, value), 0, 0);
}

proof fn lemma_blocks_fill<M: MemoryBus>(
    machine: Machine<M::State>,
    load: bool,
    places: Seq<usize>,
    start: u32,
    count: nat,
)
    requires
        filling(machine.cpu),
        count <= places.len(),
        forall|i: int| 0 <= i < places.len() ==> #[trigger] places[i] < 31,
    ensures
        filling(block_moved::<M>(machine, load, places, start, count).cpu),
    decreases count,
{
    if count > 0 {
        lemma_blocks_fill::<M>(machine, load, places, start, (count - 1) as nat);
        let before = block_moved::<M>(machine, load, places, start, (count - 1) as nat);
        let address = start.wrapping_add((4 * (count - 1)) as u32);
        lemma_register_fills(
            before.cpu,
            places[count - 1] as int,
            M::word_at(before.memory, address),
        );
    }
}

proof fn lemma_block_fills<M: MemoryBus>(
    machine: Machine<M::State>,
    load: bool,
    registers: RegisterList,
    load_spsr: Option<usize>,
    index: Indexing,
)
    requires
        filling(machine.cpu),
        index.base < 31,
    ensures
        filling(block_transferred::<M>(machine, load, registers, load_spsr, index).cpu),
{
    lemma_register_fills(machine.cpu, 0, 0);
    let start = machine.cpu.block_start(registers, index);
    let ready = Machine { cpu: machine.cpu.ticked(), ..machine };
    registers.lemma_below(16, 16);
    lemma_blocks_fill::<M>(ready, load, registers.places(), start, registers.places().len());
    let moved = block_moved::<M>(
        ready,
        load,
        registers.places(),
        start,
        registers.places().len(),
    );
    lemma_register_fills(moved.cpu, index.base as int, machine.cpu.block_end(registers, index));
}

proof fn lemma_processing_fills(
    cpu: CpuState,
    status: DataProcessingCpsr,
    opcode: DataProcessingOpcode,
    operand1: usize,
    operand2: Offset,
    target: usize,
)
    requires
        filling(cpu),
        target < 31,
    ensures
        filling(cpu.processed(status, opcode, operand1, operand2, target)),
{
    let set_flags = status is SetFlags;
    lemma_operand_fills(cpu, operand2, set_flags);
    let fetched = cpu.operand_resolved(operand2, set_flags);
    let outcome = computed(
        opcode,
        fetched.registers[operand1 as int],
        cpu.operand(operand2).0,
        cpu.flag(flags::CARRY),
    );
    let flagged = if set_flags && outcome.status is Some {
        fetched.with_flag(flags::CARRY, (outcome.status->0).0).with_flag(
            flags::OVERFLOW,
            (outcome.status->0).1,
        )
    } else {
        fetched
    };
    assert(filling(flagged));
    lemma_register_fills(flagged, target as int, outcome.value);
}

proof fn lemma_execution_fills<M: MemoryBus>(machine: Machine<M::State>, instruction: Instruction)
    requires
        filling(machine.cpu),
        instruction.well_formed(),
    ensures
        filling(executed::<M>(machine, instruction).cpu),
{
    let cpu = machine.cpu;
    let memory = machine.memory;
    match instruction {
        Instruction::Interrupt => {
            let link = cpu.pc().wrapping_sub(cpu.instruction_size());
            lemma_register_fills(cpu, banked(CpuMode::Supervisor, 14), link);
            let linked = cpu.with_register(banked(CpuMode::Supervisor, 14), link);
            let entered = CpuState {
                spsr: linked.spsr.update(1, linked.cpsr),
                cpsr: linked.cpsr & !0b1111u32 | 0b0011u32,
                ..linked
            };
            let quiet = entered.with_flag(flags::THUMB, false).with_flag(flags::DISABLE_IRQ, true);
            assert(filling(quiet));
            lemma_register_fills(quiet, 0, 0x08);
        },
        Instruction::Branch { offset, link_register } => {},
        Instruction::LoadPsr { spsr, target } => {},
        Instruction::StorePsr { spsr, source, mask } => {
            lemma_operand_fills(cpu, source, false);
        },
        Instruction::BlockDataTransfer { load, registers, load_spsr, index } => {
            lemma_block_fills::<M>(machine, load, registers, load_spsr, index);
        },
        Instruction::SingleDataTransfer { load, index, target, offset, byte } => {
            lemma_transfer_fills(cpu, index, offset);
        },
        Instruction::HalfwordDataTransfer { mode, index, target, offset } => {
            lemma_transfer_fills(cpu, index, offset);
        },
        Instruction::BranchAndExchange { register } => {},
        Instruction::SingleDataSwap { source, target, base, byte } => {},
        Instruction::Multiply { operand1, operand2, accumulate, target, set_flags } => {},
        Instruction::MultiplyLong {
            operand1,
            operand2,
            target_low,
            target_high,
            accumulate,
            signed,
            set_flags,
        } => {},
        Instruction::DataProcessing { cpsr, opcode, operand1, operand2, target } => {
            lemma_processing_fills(cpu, cpsr, opcode, operand1, operand2, target);
        },
    }
}

/// Every instruction leaves the pipeline full and all registers in place, so
/// that the program counter is always two instructions ahead of the one that is
/// fetched next.
pub proof fn pipeline_is_full_between_instructions<M: MemoryBus>(
    machine: Machine<M::State>,
    cond: u8,
    instruction: Instruction,
)
    requires
        machine.cpu.well_formed(),
        instruction.well_formed(),
    ensures
        completed::<M>(machine, cond, instruction).cpu.well_formed(),
        completed::<M>(machine, cond, instruction).cpu.pipeline_size == 2,
{
    let issued = Machine { cpu: CpuState { pipeline_size: 1, ..machine.cpu }, ..machine };
    lemma_execution_fills::<M>(issued, instruction);
}

/// Whether the program counter is a multiple of the instruction size.
pub open spec fn is_aligned(cpu: CpuState) -> bool {
    if cpu.instruction_size() == 2 { cpu.pc() % 2 == 0 } else { cpu.pc() % 4 == 0 }
}

/// Whether an instruction takes up a saved status.
spec fn loads_status(instruction: Instruction) -> bool {
    match instruction {
        Instruction::BlockDataTransfer { load, registers, load_spsr, index } => load_spsr is Some,
        Instruction::DataProcessing { cpsr, opcode, operand1, operand2, target } => cpsr is LoadSpsr,
        _ => false,
    }
}

/// Whether a processor in code of this width has an aligned program counter.
spec fn aligned_in(cpu: CpuState, thumb: bool) -> bool {
    cpu.well_formed() && cpu.flag(flags::THUMB) == thumb && is_aligned(cpu)
}

proof fn lemma_jump_aligns(cpu: CpuState, target: u32)
    requires
        cpu.well_formed(),
    ensures
        aligned_in(cpu.jumped(target), cpu.flag(flags::THUMB)),
{
    assert((target & !1u32) % 2 == 0 && (target & !3u32) % 4 == 0) by (bit_vector);
}

proof fn lemma_register_aligns(cpu: CpuState, thumb: bool, register: int, value: u32)
    requires
        aligned_in(cpu, thumb),
        0 <= register < 31,
    ensures
        aligned_in(cpu.ticked(), thumb),
        aligned_in(cpu.with_register(register, value), thumb),
{
    lemma_jump_aligns(cpu, value);
}

proof fn lemma_flag_aligns(cpu: CpuState, thumb: bool, flag: u32, value: bool)
    requires
        aligned_in(cpu, thumb),
        flag < 32,
        flag != flags::THUMB,
    ensures
        aligned_in(cpu.with_flag(flag, value), thumb),
{
    set_bit_is_local_u32(cpu.cpsr, flag, value, flags::THUMB);
}

proof fn lemma_operand_aligns(cpu: CpuState, thumb: bool, offset: Offset, with_flags: bool)
    requires
        aligned_in(cpu, thumb),
    ensures
        aligned_in(cpu.operand_fetched(offset), thumb),
        aligned_in(cpu.operand_resolved(offset, with_flags), thumb),
{
    lemma_register_aligns(cpu, thumb, 0, 0);
    let carry = cpu.operand(offset).1;
    if carry is Some {
        lemma_flag_aligns(cpu.operand_fetched(offset), thumb, flags::CARRY, carry->0);
    }
}

proof fn lemma_transfer_aligns(cpu: CpuState, thumb: bool, index: Indexing, offset: Offset)
    requires
        aligned_in(cpu, thumb),
        index.base < 31,
    ensures
        aligned_in(
            cpu.operand_fetched(offset).indexed(index, cpu.operand(offset).0).ticked(),
            thumb,
        ),
{
    lemma_operand_aligns(cpu, thumb, offset, false);
    let ready = cpu.operand_fetched(offset);
    let value = cpu.operand(offset).0;
    lemma_register_aligns(ready, thumb, index.base as int, ready.moved_base(index, value));
    lemma_register_aligns(ready.indexed(index, value), thumb, 0, 0);
}

proof fn lemma_blocks_align<M: MemoryBus>(
    machine: Machine<M::State>,
    thumb: bool,
    load: bool,
    places: Seq<usize>,
    start: u32,
    count: nat,
)
    requires
        aligned_in(machine.cpu, thumb),
        count <= places.len(),
        forall|i: int| 0 <= i < places.len() ==> #[trigger] places[i] < 31,
    ensures
        aligned_in(block_moved::<M>(machine, load, places, start, count).cpu, thumb),
    decreases count,
{
    if count > 0 {
        lemma_blocks_align::<M>(machine, thumb, load, places, start, (count - 1) as nat);
        let before = block_moved::<M>(machine, load, places, start, (count - 1) as nat);
        let address = start.wrapping_add((4 * (count - 1)) as u32);
        lemma_register_aligns(
            before.cpu,
            thumb,
            places[count - 1] as int,
            M::word_at(before.memory, address),
        );
    }
}

proof fn lemma_block_aligns<M: MemoryBus>(
    machine: Machine<M::State>,
    thumb: bool,
    load: bool,
    registers: RegisterList,
    load_spsr: Option<usize>,
    index: Indexing,
)
    requires
        aligned_in(machine.cpu, thumb),
        index.base < 31,
        thumb ==> load_spsr is None,
    ensures
        block_transferred::<M>(machine, load, registers, load_spsr, index).cpu.well_formed(),
        is_aligned(block_transferred::<M>(machine, load, registers, load_spsr, index).cpu),
{
    lemma_register_aligns(machine.cpu, thumb, 0, 0);
    let start = machine.cpu.block_start(registers, index);
    let ready = Machine { cpu: machine.cpu.ticked(), ..machine };
    registers.lemma_below(16, 16);
    lemma_blocks_align::<M>(
        ready,
        thumb,
        load,
        registers.places(),
        start,
        registers.places().len(),
    );
    let moved = block_moved::<M>(
        ready,
        load,
        registers.places(),
        start,
        registers.places().len(),
    );
    lemma_register_aligns(
        moved.cpu,
        thumb,
        index.base as int,
        machine.cpu.block_end(registers, index),
    );
}

proof fn lemma_processing_aligns(
    cpu: CpuState,
    thumb: bool,
    status: DataProcessingCpsr,
    opcode: DataProcessingOpcode,
    operand1: usize,
    operand2: Offset,
    target: usize,
)
    requires
        aligned_in(cpu, thumb),
        target < 31,
        thumb ==> status !is LoadSpsr,
    ensures
        cpu.processed(status, opcode, operand1, operand2, target).well_formed(),
        is_aligned(cpu.processed(status, opcode, operand1, operand2, target)),
{
    let set_flags = status is SetFlags;
    lemma_operand_aligns(cpu, thumb, operand2, set_flags);
    let fetched = cpu.operand_resolved(operand2, set_flags);
    let outcome = computed(
        opcode,
        fetched.registers[operand1 as int],
        cpu.operand(operand2).0,
        cpu.flag(flags::CARRY),
    );
    let flagged = if set_flags && outcome.status is Some {
        let (carry, overflow) = outcome.status->0;
        let carried = fetched.with_flag(flags::CARRY, carry);
        lemma_flag_aligns(fetched, thumb, flags::CARRY, carry);
        lemma_flag_aligns(carried, thumb, flags::OVERFLOW, overflow);
        carried.with_flag(flags::OVERFLOW, overflow)
    } else {
        fetched
    };
    lemma_register_aligns(flagged, thumb, target as int, outcome.value);
    let kept = if keeps_result(opcode) {
        flagged.with_register(target as int, outcome.value)
    } else {
        flagged
    };
    let signed = kept.with_flag(flags::NEGATIVE, outcome.value.has_bit(31));
    lemma_flag_aligns(kept, thumb, flags::NEGATIVE, outcome.value.has_bit(31));
    lemma_flag_aligns(signed, thumb, flags::ZERO, outcome.value == 0);
}

proof fn lemma_status_write_aligns(
    cpu: CpuState,
    thumb: bool,
    spsr: Option<usize>,
    source: Offset,
    mask: u32,
)
    requires
        aligned_in(cpu, thumb),
        saved_in_range(spsr),
        cpu.status_write_keeps_width(spsr, source, mask),
    ensures
        aligned_in(cpu.status_written(spsr, source, mask), thumb),
{
    lemma_operand_aligns(cpu, thumb, source, false);
    let value = cpu.operand(source).0;
    crate::cpu::alu_laws::lemma_merge(cpu.cpsr, value, mask, flags::THUMB);
}

proof fn lemma_multiplication_aligns(
    cpu: CpuState,
    thumb: bool,
    zero: bool,
    negative: bool,
    first: int,
    low: u32,
    second: int,
    high: u32,
)
    requires
        aligned_in(cpu, thumb),
        0 <= first < 31,
        0 <= second < 31,
    ensures
        ({
            let flagged = cpu.with_flag(flags::ZERO, zero).with_flag(flags::NEGATIVE, negative);
            &&& aligned_in(cpu.with_register(first, low).with_register(second, high), thumb)
            &&& aligned_in(flagged.with_register(first, low), thumb)
            &&& aligned_in(flagged.with_register(first, low).with_register(second, high), thumb)
        }),
{
    let zeroed = cpu.with_flag(flags::ZERO, zero);
    let flagged = zeroed.with_flag(flags::NEGATIVE, negative);
    lemma_flag_aligns(cpu, thumb, flags::ZERO, zero);
    lemma_flag_aligns(zeroed, thumb, flags::NEGATIVE, negative);
    lemma_register_aligns(cpu, thumb, first, low);
    lemma_register_aligns(cpu.with_register(first, low), thumb, second, high);
    lemma_register_aligns(flagged, thumb, first, low);
    lemma_register_aligns(flagged.with_register(first, low), thumb, second, high);
}

proof fn lemma_execution_aligns<M: MemoryBus>(
    machine: Machine<M::State>,
    thumb: bool,
    instruction: Instruction,
)
    requires
        aligned_in(machine.cpu, thumb),
        instruction.well_formed(),
        executable::<M>(machine, instruction),
        thumb ==> !loads_status(instruction),
    ensures
        executed::<M>(machine, instruction).cpu.well_formed(),
        is_aligned(executed::<M>(machine, instruction).cpu),
{
    let cpu = machine.cpu;
    let memory = machine.memory;
    match instruction {
        Instruction::Interrupt => {
            let link = cpu.pc().wrapping_sub(cpu.instruction_size());
            let linked = cpu.with_register(banked(CpuMode::Supervisor, 14), link);
            lemma_register_aligns(cpu, thumb, banked(CpuMode::Supervisor, 14), link);
            let entered = CpuState {
                spsr: linked.spsr.update(1, linked.cpsr),
                cpsr: linked.cpsr & !0b1111u32 | 0b0011u32,
                ..linked
            };
            let quiet = entered.with_flag(flags::THUMB, false).with_flag(flags::DISABLE_IRQ, true);
            lemma_jump_aligns(quiet, 0x08);
        },
        Instruction::Branch { offset, link_register } => {
            let target = cpu.pc().wrapping_add_signed(offset);
            lemma_jump_aligns(cpu, target);
            if let Some(link) = link_register {
                let far = (cpu.registers[link as int] + (offset as u32)) as u32;
                lemma_jump_aligns(cpu, far);
                lemma_register_aligns(
                    cpu.jumped(far),
                    thumb,
                    link as int,
                    (cpu.pc() - 1) as u32,
                );
                lemma_register_aligns(cpu, thumb, link as int, (cpu.pc() - 4) as u32);
                lemma_jump_aligns(
                    cpu.with_register(link as int, (cpu.pc() - 4) as u32),
                    target,
                );
            }
        },
        Instruction::LoadPsr { spsr, target } => {
            lemma_register_aligns(cpu, thumb, target as int, cpu.status(spsr));
        },
        Instruction::StorePsr { spsr, source, mask } => {
            lemma_status_write_aligns(cpu, thumb, spsr, source, mask);
        },
        Instruction::BlockDataTransfer { load, registers, load_spsr, index } => {
            lemma_block_aligns::<M>(machine, thumb, load, registers, load_spsr, index);
        },
        Instruction::SingleDataTransfer { load, index, target, offset, byte } => {
            lemma_transfer_aligns(cpu, thumb, index, offset);
            let value = cpu.operand(offset).0;
            let fetched = cpu.operand_fetched(offset);
            let address = fetched.indexed_address(index, value);
            lemma_register_aligns(
                fetched.indexed(index, value).ticked(),
                thumb,
                target as int,
                loaded(M::word_at(memory, address), address, byte),
            );
        },
        Instruction::HalfwordDataTransfer { mode, index, target, offset } => {
            lemma_transfer_aligns(cpu, thumb, index, offset);
            let value = cpu.operand(offset).0;
            let fetched = cpu.operand_fetched(offset);
            let address = fetched.indexed_address(index, value);
            let ready = fetched.indexed(index, value).ticked();
            let word = half_loaded(M::word_at(memory, address), mode);
            lemma_register_aligns(ready, thumb, target as int, word);
            lemma_register_aligns(
                CpuState { skip_test: true, ..ready },
                thumb,
                target as int,
                word,
            );
        },
        Instruction::BranchAndExchange { register } => {
            let target = cpu.registers[register as int];
            lemma_jump_aligns(cpu.with_flag(flags::THUMB, target.has_bit(0)), target);
        },
        Instruction::SingleDataSwap { source, target, base, byte } => {
            let address = cpu.registers[base as int];
            lemma_register_aligns(
                cpu,
                thumb,
                target as int,
                loaded(M::word_at(memory, address), address, byte),
            );
        },
        Instruction::Multiply { operand1, operand2, accumulate, target, set_flags } => {
            let result = cpu.product(operand1, operand2, accumulate);
            lemma_multiplication_aligns(
                cpu,
                thumb,
                result == 0,
                result.has_bit(31),
                target as int,
                result,
                0,
                0,
            );
            lemma_register_aligns(cpu, thumb, target as int, result);
        },
        Instruction::MultiplyLong {
            operand1,
            operand2,
            target_low,
            target_high,
            accumulate,
            signed,
            set_flags,
        } => {
            let result = cpu.long_product(
                operand1,
                operand2,
                target_low,
                target_high,
                accumulate,
                signed,
            );
            let low = result as u32;
            let high = (result >> 32) as u32;
            lemma_multiplication_aligns(
                cpu,
                thumb,
                high == 0 && low == 0,
                high.has_bit(31),
                target_low as int,
                low,
                target_high as int,
                high,
            );
        },
        Instruction::DataProcessing { cpsr, opcode, operand1, operand2, target } => {
            lemma_processing_aligns(cpu, thumb, cpsr, opcode, operand1, operand2, target);
        },
    }
}

/// Decoding gives instructions that name only registers that exist. In half word
/// code none of them takes up a saved status.
proof fn lemma_decoded(cpu: CpuState, opcode: u32)
    ensures
        cpu.decoded(opcode) matches Some((cond, instruction)) ==> instruction.well_formed() && (
        cpu.flag(flags::THUMB) ==> !loads_status(instruction)),
{
    if let Some(mode) = cpu.mode() {
        if cpu.flag(flags::THUMB) {
            decoded_half_is_well_formed(addressed_half(opcode, cpu.pc()), mode, cpu.pc());
        } else {
            decoded_word_is_well_formed(opcode, mode);
        }
    }
}

/// Every instruction leaves the program counter at a multiple of the instruction
/// size, also where it changes that size.
pub proof fn program_counter_stays_aligned<M: MemoryBus>(machine: Machine<M::State>)
    requires
        machine.cpu.well_formed(),
        is_aligned(machine.cpu),
        can_step::<M>(machine),
    ensures
        stepped::<M>(machine).cpu.well_formed(),
        is_aligned(stepped::<M>(machine).cpu),
{
    let (cond, instruction) = machine.cpu.decoded(fetched::<M>(machine))->0;
    let thumb = machine.cpu.flag(flags::THUMB);
    lemma_decoded(machine.cpu, fetched::<M>(machine));
    let issued = Machine { cpu: CpuState { pipeline_size: 1, ..machine.cpu }, ..machine };
    if machine.cpu.condition(cond) {
        lemma_execution_aligns::<M>(issued, thumb, instruction);
        let done = executed::<M>(issued, instruction).cpu;
        lemma_register_aligns(done, done.flag(flags::THUMB), 0, 0);
    } else {
        lemma_register_aligns(issued.cpu, thumb, 0, 0);
    }
}

/// A software interrupt enters the supervisor mode in word code with interrupts
/// disabled, saves the status and the address of the next instruction, and goes
/// on at its vector.
pub proof fn software_interrupt_saves_the_caller<M: MemoryBus>(machine: Machine<M::State>, cond: u8)
    requires
        machine.cpu.well_formed(),
        machine.cpu.condition(cond),
    ensures
        ({
            let cpu = machine.cpu;
            let after = completed::<M>(machine, cond, Instruction::Interrupt).cpu;
            &&& after.mode() == Some(CpuMode::Supervisor)
            &&& !after.flag(flags::THUMB)
            &&& after.flag(flags::DISABLE_IRQ)
            &&& after.spsr[1] == cpu.cpsr
            &&& after.registers[24] == cpu.pc().wrapping_sub(cpu.instruction_size())
            &&& after.fetch_address() == 0x08
        }),
{
    let issued = CpuState { pipeline_size: 1, ..machine.cpu };
    let linked = issued.with_register(24, issued.pc().wrapping_sub(issued.instruction_size()));
    let status = linked.cpsr & !0b1111u32 | 0b0011u32;
    let entered = CpuState { spsr: linked.spsr.update(1, linked.cpsr), cpsr: status, ..linked };
    let narrow = entered.with_flag(flags::THUMB, false);
    let quiet = narrow.with_flag(flags::DISABLE_IRQ, true);
    let before = machine.cpu.cpsr;
    set_bit_is_local_u32(status, 5, false, 5);
    set_bit_is_local_u32(narrow.cpsr, 7, true, 5);
    set_bit_is_local_u32(narrow.cpsr, 7, true, 7);
    assert(((((before & !0b1111u32 | 0b0011u32) & !(1u32 << 5)) | (1u32 << 7)) & 0b1111) == 0b0011
        && 8u32 & !3u32 == 8) by (bit_vector);
    jump_leads_to_target(quiet, 0x08);
    assert(issued.interrupted() == quiet.jumped(0x08));
}

/// Returning from a software interrupt restores the status of the caller and
/// goes on after the call. In half word code this holds of a call in the first
/// half of a word.
pub proof fn return_undoes_software_interrupt<M: MemoryBus>(
    machine: Machine<M::State>,
    cond: u8,
    again: u8,
)
    requires
        machine.cpu.well_formed(),
        machine.cpu.condition(cond),
        completed::<M>(machine, cond, Instruction::Interrupt).cpu.condition(again),
        machine.cpu.pipeline_size == 2,
        machine.cpu.pc() % 4 == 0,
    ensures
        ({
            let inside = completed::<M>(machine, cond, Instruction::Interrupt);
            let back = completed::<M>(
                inside,
                again,
                Instruction::DataProcessing {
                    cpsr: DataProcessingCpsr::LoadSpsr(1),
                    opcode: DataProcessingOpcode::Move,
                    operand1: 0,
                    operand2: Offset::Register(24),
                    target: 15,
                },
            );
            &&& back.cpu.cpsr == machine.cpu.cpsr
            &&& back.cpu.fetch_address() == machine.cpu.fetch_address().wrapping_add(
                machine.cpu.instruction_size(),
            )
            &&& back.memory == machine.memory
        }),
{
    let inside = completed::<M>(machine, cond, Instruction::Interrupt);
    software_interrupt_saves_the_caller::<M>(machine, cond);
    let issued = CpuState { pipeline_size: 1, ..inside.cpu };
    let link = machine.cpu.pc().wrapping_sub(machine.cpu.instruction_size());
    lemma_execution_fills::<M>(
        Machine { cpu: CpuState { pipeline_size: 1, ..machine.cpu }, ..machine },
        Instruction::Interrupt,
    );
    lemma_restored(issued, link, machine.cpu.cpsr);
    assert(issued.processed(
        DataProcessingCpsr::LoadSpsr(1),
        DataProcessingOpcode::Move,
        0,
        Offset::Register(24),
        15,
    ) == (CpuState { cpsr: machine.cpu.cpsr, ..issued.jumped(link) }));
}

/// A jump in word code that takes up another status leads to the target, if
/// that lies where the instruction width of the status has it.
proof fn lemma_restored(cpu: CpuState, target: u32, status: u32)
    requires
        cpu.well_formed(),
        !cpu.flag(flags::THUMB),
        target % 4 == (if status.has_bit(flags::THUMB) { 2u32 } else { 0 }),
    ensures
        (CpuState { cpsr: status, ..cpu.jumped(target) }).ticked().fetch_address() == target,
        (CpuState { cpsr: status, ..cpu.jumped(target) }).ticked().cpsr == status,
{
    assert(target & !3u32 == target - target % 4) by (bit_vector);
    let jumped = CpuState { cpsr: status, ..cpu.jumped(target) };
    assert(jumped.pipeline_size == 1);
    assert(jumped.pc() == ((target - target % 4) as u32).wrapping_add(4));
    let after = jumped.ticked();
    let size = jumped.instruction_size();
    assert(after.pc() == jumped.pc().wrapping_add(size));
    assert(after.pipeline_size * after.instruction_size() == 2 * size) by (nonlinear_arith)
        requires
            after.pipeline_size == 2,
            after.instruction_size() == size,
    ;
}

/// Storing registers below a base and loading as many from there on brings the
/// base back.
pub proof fn pop_moves_the_base_back(cpu: CpuState, base: usize, registers: RegisterList)
    requires
        cpu.well_formed(),
        base < 31,
        base != 15,
    ensures
        ({
            let push = Indexing { base, modify_first: true, subtract: true, write_back: true };
            let pop = Indexing { base, modify_first: false, subtract: false, write_back: true };
            let pushed = cpu.with_register(base as int, cpu.block_end(registers, push));
            &&& pushed.block_start(registers, pop) == cpu.block_start(registers, push)
            &&& pushed.block_end(registers, pop) == cpu.registers[base as int]
        }),
{
    registers.lemma_below(16, 16);
}

/// A jump that selects the instruction width goes to the target with the lowest
/// bits cleared, in half word code exactly if the lowest bit is set.
pub proof fn exchange_selects_the_width<M: MemoryBus>(
    machine: Machine<M::State>,
    cond: u8,
    register: usize,
)
    requires
        machine.cpu.well_formed(),
        machine.cpu.condition(cond),
        register < 31,
    ensures
        ({
            let target = machine.cpu.registers[register as int];
            let after = completed::<M>(
                machine,
                cond,
                Instruction::BranchAndExchange { register },
            ).cpu;
            &&& after.flag(flags::THUMB) == target.has_bit(0)
            &&& after.fetch_address() == target & !(if target.has_bit(0) { 1u32 } else { 3u32 })
        }),
{
    let issued = CpuState { pipeline_size: 1, ..machine.cpu };
    let target = machine.cpu.registers[register as int];
    set_bit_is_local_u32(issued.cpsr, flags::THUMB, target.has_bit(0), flags::THUMB);
    jump_leads_to_target(issued.with_flag(flags::THUMB, target.has_bit(0)), target);
}

/// Writing a register other than the program counter changes that register
/// alone: it neither refills the pipeline nor takes a cycle.
pub proof fn register_write_is_local(cpu: CpuState, register: int, value: u32, other: int)
    requires
        cpu.well_formed(),
        0 <= register < 31,
        register != 15,
        0 <= other < 31,
    ensures
        cpu.with_register(register, value).registers[register] == value,
        other != register ==> cpu.with_register(register, value).registers[other]
            == cpu.registers[other],
        cpu.with_register(register, value).cpsr == cpu.cpsr,
        cpu.with_register(register, value).spsr == cpu.spsr,
        cpu.with_register(register, value).skip_test == cpu.skip_test,
        cpu.with_register(register, value).pipeline_size == cpu.pipeline_size,
        cpu.with_register(register, value).cycle == cpu.cycle,
{
}

} // verus!
