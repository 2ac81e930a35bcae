//! The decoding of half word instructions.

use crate::bits::Bits;
use crate::cpu::instruction::{
    DataProcessingCpsr, DataProcessingOpcode, HalfwordDataTransferMode, Indexing, Instruction,
    Offset, OffsetShift, RegisterList,
};
use crate::cpu::mode::{banked, register_index, CpuMode};
use crate::cpu::parser::{
    constant_shift, decoded_well, operation, parse_constant_shift, parse_operation,
    InvalidInstruction, ALWAYS,
};
use vstd::prelude::*;

verus! {

/// The half of a word that an instruction at the program counter lies in.
pub open spec fn addressed_half(word: u32, pc: u32) -> u32 {
    if pc & 2 == 0 { word & 0xffff } else { word >> 16 }
}

/// The number of the low register that the three bits from `shift` on name.
pub open spec fn low_number(half: u32, shift: u32) -> u32 {
    (half >> shift) & 0b111
}

/// The place of the low register that the three bits from `shift` on name.
pub open spec fn low(half: u32, mode: CpuMode, shift: u32) -> usize {
    banked(mode, low_number(half, shift) as int) as usize
}

/// The place of a register with a fourth bit elsewhere.
pub open spec fn any(half: u32, mode: CpuMode, shift: u32, high: u32) -> usize {
    banked(mode, low_number(half, shift) + (if half.has_bit(high) { 8int } else { 0 })) as usize
}

/// A constant operand.
pub open spec fn constant(value: u32) -> Offset {
    Offset::Immediate { value, carry: None }
}

/// An instruction that sets the flags.
pub open spec fn flagged(
    opcode: DataProcessingOpcode,
    operand1: usize,
    operand2: Offset,
    target: usize,
) -> Instruction {
    Instruction::DataProcessing {
        cpsr: DataProcessingCpsr::SetFlags,
        opcode,
        operand1,
        operand2,
        target,
    }
}

/// An instruction that leaves the flags alone.
pub open spec fn unflagged(
    opcode: DataProcessingOpcode,
    operand1: usize,
    operand2: Offset,
    target: usize,
) -> Instruction {
    Instruction::DataProcessing {
        cpsr: DataProcessingCpsr::Unchanged,
        opcode,
        operand1,
        operand2,
        target,
    }
}

/// An address made of a base and an offset that is added.
pub open spec fn added_to(base: usize) -> Indexing {
    Indexing { base, modify_first: true, subtract: false, write_back: false }
}

/// A shift by a constant, which moves a register to another one.
pub open spec fn shift_instruction(half: u32, mode: CpuMode) -> Instruction {
    let shift_type = ((half >> 11) & 0b11) as u8;
    flagged(
        DataProcessingOpcode::Move,
        low(half, mode, 3),
        Offset::ShiftedRegister {
            register: low(half, mode, 3),
            shift_type,
            shift: constant_shift(shift_type, (half >> 6) & 0b11111),
        },
        low(half, mode, 0),
    )
}

/// An addition or subtraction of a register or three bits.
pub open spec fn add_instruction(half: u32, mode: CpuMode) -> Instruction {
    flagged(
        if half.has_bit(9) { DataProcessingOpcode::Subtract } else { DataProcessingOpcode::Add },
        low(half, mode, 3),
        if half.has_bit(10) {
            constant(low_number(half, 6))
        } else {
            Offset::Register(low(half, mode, 6))
        },
        low(half, mode, 0),
    )
}

/// An operation on a register and eight bits.
pub open spec fn constant_instruction(half: u32, mode: CpuMode) -> Instruction {
    let kind = (half >> 11) & 0b11;
    flagged(
        if kind == 0 {
            DataProcessingOpcode::Move
        } else if kind == 1 {
            DataProcessingOpcode::TestSubtract
        } else if kind == 2 {
            DataProcessingOpcode::Add
        } else {
            DataProcessingOpcode::Subtract
        },
        low(half, mode, 8),
        constant(half & 0xff),
        low(half, mode, 8),
    )
}

/// An operation on two low registers. Most have the number that they have in a
/// word; four are shifts, one is a negation and one a multiplication.
pub open spec fn register_instruction(half: u32, mode: CpuMode) -> Instruction {
    let kind = (half >> 6) & 0xf;
    let source = low(half, mode, 3);
    let target = low(half, mode, 0);
    if kind == 2 || kind == 3 || kind == 4 || kind == 7 {
        flagged(
            DataProcessingOpcode::Move,
            target,
            Offset::ShiftedRegister {
                register: target,
                shift_type: if kind == 7 { 3 } else { (kind - 2) as u8 },
                shift: OffsetShift::Register(source),
            },
            target,
        )
    } else if kind == 9 {
        flagged(DataProcessingOpcode::ReverseSubtract, source, constant(0), target)
    } else if kind == 13 {
        Instruction::Multiply {
            operand1: target,
            operand2: source,
            accumulate: None,
            target,
            set_flags: true,
        }
    } else {
        flagged(operation(kind), target, Offset::Register(source), target)
    }
}

/// An operation on any two registers, or a jump that selects the instruction
/// width.
pub open spec fn high_instruction(half: u32, mode: CpuMode) -> Instruction {
    let kind = (half >> 8) & 0b11;
    let source = any(half, mode, 3, 6);
    let target = any(half, mode, 0, 7);
    if kind == 0 {
        unflagged(DataProcessingOpcode::Add, target, Offset::Register(source), target)
    } else if kind == 1 {
        flagged(DataProcessingOpcode::TestSubtract, target, Offset::Register(source), target)
    } else if kind == 2 {
        unflagged(DataProcessingOpcode::Move, target, Offset::Register(source), target)
    } else {
        Instruction::BranchAndExchange { register: source }
    }
}

/// The offset of a constant near the program counter, which counts from a
/// multiple of four.
pub open spec fn from_aligned_pc(half: u32, pc: u32) -> Offset {
    constant((((half & 0xff) * 4) as u32).wrapping_sub(pc & 2))
}

/// A load of a word near the program counter.
pub open spec fn near_load(half: u32, mode: CpuMode, pc: u32) -> Instruction {
    Instruction::SingleDataTransfer {
        load: true,
        index: added_to(15),
        target: low(half, mode, 8),
        offset: from_aligned_pc(half, pc),
        byte: false,
    }
}

/// A transfer at the sum of two registers.
pub open spec fn indexed_transfer(half: u32, mode: CpuMode) -> Instruction {
    let index = added_to(low(half, mode, 3));
    let target = low(half, mode, 0);
    let offset = Offset::Register(low(half, mode, 6));
    if half.has_bit(9) {
        Instruction::HalfwordDataTransfer {
            mode: if half.has_bit(10) {
                if half.has_bit(11) {
                    HalfwordDataTransferMode::LoadSignedHalfword
                } else {
                    HalfwordDataTransferMode::LoadSignedByte
                }
            } else if half.has_bit(11) {
                HalfwordDataTransferMode::LoadUnsignedHalfword
            } else {
                HalfwordDataTransferMode::StoreHalfword
            },
            index,
            target,
            offset,
        }
    } else {
        Instruction::SingleDataTransfer {
            load: half.has_bit(11),
            index,
            target,
            offset,
            byte: half.has_bit(10),
        }
    }
}

/// A transfer at a register and a constant.
pub open spec fn offset_transfer(half: u32, mode: CpuMode) -> Instruction {
    let distance = (half >> 6) & 0b11111;
    Instruction::SingleDataTransfer {
        load: half.has_bit(11),
        index: added_to(low(half, mode, 3)),
        target: low(half, mode, 0),
        offset: constant(if half.has_bit(12) { distance } else { (distance * 4) as u32 }),
        byte: half.has_bit(12),
    }
}

/// A transfer of a half word at a register and a constant.
pub open spec fn half_offset_transfer(half: u32, mode: CpuMode) -> Instruction {
    Instruction::HalfwordDataTransfer {
        mode: if half.has_bit(11) {
            HalfwordDataTransferMode::LoadUnsignedHalfword
        } else {
            HalfwordDataTransferMode::StoreHalfword
        },
        index: added_to(low(half, mode, 3)),
        target: low(half, mode, 0),
        offset: constant((((half >> 6) & 0b11111) * 2) as u32),
    }
}

/// A transfer on the stack.
pub open spec fn stack_transfer(half: u32, mode: CpuMode) -> Instruction {
    Instruction::SingleDataTransfer {
        load: half.has_bit(11),
        index: added_to(banked(mode, 13) as usize),
        target: low(half, mode, 8),
        offset: constant(((half & 0xff) * 4) as u32),
        byte: false,
    }
}

/// An address near the program counter or on the stack.
pub open spec fn address_instruction(half: u32, mode: CpuMode, pc: u32) -> Instruction {
    if half.has_bit(11) {
        unflagged(
            DataProcessingOpcode::Add,
            banked(mode, 13) as usize,
            constant(((half & 0xff) * 4) as u32),
            low(half, mode, 8),
        )
    } else {
        unflagged(DataProcessingOpcode::Add, 15, from_aligned_pc(half, pc), low(half, mode, 8))
    }
}

/// A move of the stack pointer.
pub open spec fn stack_move(half: u32, mode: CpuMode) -> Instruction {
    let stack = banked(mode, 13) as usize;
    unflagged(
        if half.has_bit(7) { DataProcessingOpcode::Subtract } else { DataProcessingOpcode::Add },
        stack,
        constant(((half & 0x7f) * 4) as u32),
        stack,
    )
}

/// A transfer of registers to or from the stack. Bit 8 adds the link register to
/// those that are stored and the program counter to those that are loaded.
pub open spec fn stack_block(half: u32, mode: CpuMode) -> Option<Instruction> {
    let load = half.has_bit(11);
    let extra = if half.has_bit(8) {
        if load { 0x8000u32 } else { 0x4000u32 }
    } else {
        0
    };
    let bits = ((half & 0xff) | extra) as u16;
    if bits == 0 {
        None
    } else {
        Some(
            Instruction::BlockDataTransfer {
                load,
                registers: RegisterList { bits, bank: mode },
                load_spsr: None,
                index: Indexing {
                    base: banked(mode, 13) as usize,
                    modify_first: !load,
                    subtract: !load,
                    write_back: true,
                },
            },
        )
    }
}

/// A transfer of registers from a low register on.
pub open spec fn low_block(half: u32, mode: CpuMode) -> Option<Instruction> {
    let load = half.has_bit(11);
    let bits = (half & 0xff) as u16;
    if bits == 0 {
        None
    } else {
        Some(
            Instruction::BlockDataTransfer {
                load,
                registers: RegisterList { bits, bank: mode },
                load_spsr: None,
                index: Indexing {
                    base: low(half, mode, 8),
                    modify_first: false,
                    subtract: false,
                    write_back: !(load && bits.has_bit(low_number(half, 8) as u16)),
                },
            },
        )
    }
}

/// The distance of a conditional branch: eight bits with a sign, in half words.
pub open spec fn short_distance(half: u32) -> i32 {
    let units = half & 0xff;
    if half.has_bit(7) { ((units - 0x100) * 2) as i32 } else { (units * 2) as i32 }
}

/// The distance of a branch: eleven bits with a sign, in half words.
pub open spec fn long_distance(half: u32) -> i32 {
    let units = half & 0x7ff;
    if half.has_bit(10) { ((units - 0x800) * 2) as i32 } else { (units * 2) as i32 }
}

/// The first half of a long call: the upper part of the distance, a number with
/// a sign, goes to the link register.
pub open spec fn call_start(half: u32, mode: CpuMode) -> Instruction {
    let units = half & 0x7ff;
    unflagged(
        DataProcessingOpcode::Add,
        15,
        constant(
            if half.has_bit(10) {
                (0x1_0000_0000 - (0x800 - units) * 0x1000) as u32
            } else {
                (units * 0x1000) as u32
            },
        ),
        banked(mode, 14) as usize,
    )
}

/// The second half of a long call: the lower part of the distance.
pub open spec fn call_end(half: u32, mode: CpuMode) -> Instruction {
    Instruction::Branch {
        offset: ((half & 0x7ff) * 2) as i32,
        link_register: Some(banked(mode, 14) as usize),
    }
}

/// The condition and the instruction that a half word stands for.
pub open spec fn half_decoded(half: u32, mode: CpuMode, pc: u32) -> Option<(u8, Instruction)> {
    let group = half >> 11;
    if group < 3 {
        Some((ALWAYS, shift_instruction(half, mode)))
    } else if group == 3 {
        Some((ALWAYS, add_instruction(half, mode)))
    } else if group < 8 {
        Some((ALWAYS, constant_instruction(half, mode)))
    } else if group == 8 {
        if half.has_bit(10) {
            Some((ALWAYS, high_instruction(half, mode)))
        } else {
            Some((ALWAYS, register_instruction(half, mode)))
        }
    } else if group == 9 {
        Some((ALWAYS, near_load(half, mode, pc)))
    } else if group < 12 {
        Some((ALWAYS, indexed_transfer(half, mode)))
    } else if group < 16 {
        Some((ALWAYS, offset_transfer(half, mode)))
    } else if group < 18 {
        Some((ALWAYS, half_offset_transfer(half, mode)))
    } else if group < 20 {
        Some((ALWAYS, stack_transfer(half, mode)))
    } else if group < 22 {
        Some((ALWAYS, address_instruction(half, mode, pc)))
    } else if group < 24 {
        let kind = (half >> 8) & 0xf;
        if kind == 0 {
            Some((ALWAYS, stack_move(half, mode)))
        } else if kind == 4 || kind == 5 || kind == 12 || kind == 13 {
            match stack_block(half, mode) {
                Some(instruction) => Some((ALWAYS, instruction)),
                None => None,
            }
        } else {
            None
        }
    } else if group < 26 {
        match low_block(half, mode) {
            Some(instruction) => Some((ALWAYS, instruction)),
            None => None,
        }
    } else if group < 28 {
        let cond = (half >> 8) & 0xf;
        if cond == 15 {
            Some((ALWAYS, Instruction::Interrupt))
        } else if cond == 14 {
            None
        } else {
            Some(
                (
                    cond as u8,
                    Instruction::Branch { offset: short_distance(half), link_register: None },
                ),
            )
        }
    } else if group == 28 {
        Some((ALWAYS, Instruction::Branch { offset: long_distance(half), link_register: None }))
    } else if group == 29 {
        None
    } else if group == 30 {
        Some((ALWAYS, call_start(half, mode)))
    } else {
        Some((ALWAYS, call_end(half, mode)))
    }
}

/// A half word that can be decoded names only registers that exist, and only
/// shifts that are defined.
pub proof fn decoded_half_is_well_formed(half: u32, mode: CpuMode, pc: u32)
    ensures
        half_decoded(half, mode, pc) matches Some((cond, instruction)) ==> instruction.well_formed(),
{
    lemma_half_fields(half);
}

/// The condition and the instruction that the addressed half of a word stands
/// for.
pub open spec fn thumb_decoded(word: u32, mode: CpuMode, pc: u32) -> Option<(u8, Instruction)> {
    half_decoded(addressed_half(word, pc), mode, pc)
}

fn number(half: u32, shift: u32) -> (r: u32)
    requires
        shift < 32,
    ensures
        r == low_number(half, shift),
        r < 8,
{
    assert((half >> shift) & 0b111 <= 7) by (bit_vector);
    (half >> shift) & 0b111
}

fn low_register(half: u32, mode: CpuMode, shift: u32) -> (r: usize)
    requires
        shift < 32,
    ensures
        r == low(half, mode, shift),
        r < 31,
{
    register_index(mode, number(half, shift))
}

fn any_register(half: u32, mode: CpuMode, shift: u32, high: u32) -> (r: usize)
    requires
        shift < 32,
        high < 32,
    ensures
        r == any(half, mode, shift, high),
        r < 31,
{
    let high: u32 = if half.bit(high) { 8 } else { 0 };
    register_index(mode, number(half, shift) + high)
}

fn make_constant(value: u32) -> (r: Offset)
    ensures
        r == constant(value),
        r.well_formed(),
{
    Offset::Immediate { value, carry: None }
}

fn make_flagged(
    opcode: DataProcessingOpcode,
    operand1: usize,
    operand2: Offset,
    target: usize,
) -> (r: Instruction)
    requires
        operand1 < 31,
        operand2.well_formed(),
        target < 31,
    ensures
        r == flagged(opcode, operand1, operand2, target),
        r.well_formed(),
{
    Instruction::DataProcessing {
        cpsr: DataProcessingCpsr::SetFlags,
        opcode,
        operand1,
        operand2,
        target,
    }
}

fn make_unflagged(
    opcode: DataProcessingOpcode,
    operand1: usize,
    operand2: Offset,
    target: usize,
) -> (r: Instruction)
    requires
        operand1 < 31,
        operand2.well_formed(),
        target < 31,
    ensures
        r == unflagged(opcode, operand1, operand2, target),
        r.well_formed(),
{
    Instruction::DataProcessing {
        cpsr: DataProcessingCpsr::Unchanged,
        opcode,
        operand1,
        operand2,
        target,
    }
}

fn make_indexing(base: usize) -> (r: Indexing)
    ensures
        r == added_to(base),
{
    Indexing { base, modify_first: true, subtract: false, write_back: false }
}

/// The ranges of groups of bits of a half word instruction.
proof fn lemma_half_fields(half: u32)
    ensures
        half & 0xff <= 0xff,
        half & 0x7f <= 0x7f,
        half & 0x7ff <= 0x7ff,
        (half >> 6) & 0b11111 <= 31,
        (half >> 6) & 0xf <= 15,
        (half >> 8) & 0xf <= 15,
        (half >> 11) & 0b11 <= 3,
        (half >> 0) & 0b111 <= 7,
        (half >> 3) & 0b111 <= 7,
        (half >> 6) & 0b111 <= 7,
        (half >> 8) & 0b111 <= 7,
        half.has_bit(10) ==> half & 0x7ff >= 0x400,
{
    assert(half & 0xff <= 0xff && half & 0x7f <= 0x7f && half & 0x7ff <= 0x7ff && (half >> 6)
        & 0b11111 <= 31 && (half >> 6) & 0xf <= 15 && (half >> 8) & 0xf <= 15 && (half >> 11) & 0b11
        <= 3 && (half >> 0) & 0b111 <= 7 && (half >> 3) & 0b111 <= 7 && (half >> 6) & 0b111 <= 7
        && (half >> 8) & 0b111 <= 7 && ((half & (1u32 << 10)) != 0 ==> half & 0x7ff >= 0x400))
        by (bit_vector);
}

fn parse_shift(half: u32, mode: CpuMode) -> (r: Instruction)
    ensures
        r == shift_instruction(half, mode),
        r.well_formed(),
{
    proof {
        lemma_half_fields(half);
    }
    let shift_type: u8 = ((half >> 11) & 0b11) as u8;
    let register: usize = low_register(half, mode, 3);
    let shift: OffsetShift = parse_constant_shift(shift_type, (half >> 6) & 0b11111);
    make_flagged(
        DataProcessingOpcode::Move,
        register,
        Offset::ShiftedRegister { register, shift_type, shift },
        low_register(half, mode, 0),
    )
}

fn parse_add(half: u32, mode: CpuMode) -> (r: Instruction)
    ensures
        r == add_instruction(half, mode),
        r.well_formed(),
{
    let opcode: DataProcessingOpcode = if half.bit(9) {
        DataProcessingOpcode::Subtract
    } else {
        DataProcessingOpcode::Add
    };
    let operand2: Offset = if half.bit(10) {
        make_constant(number(half, 6))
    } else {
        Offset::Register(low_register(half, mode, 6))
    };
    make_flagged(opcode, low_register(half, mode, 3), operand2, low_register(half, mode, 0))
}

fn parse_constant_instruction(half: u32, mode: CpuMode) -> (r: Instruction)
    ensures
        r == constant_instruction(half, mode),
        r.well_formed(),
{
    let opcode: DataProcessingOpcode = match (half >> 11) & 0b11 {
        0 => DataProcessingOpcode::Move,
        1 => DataProcessingOpcode::TestSubtract,
        2 => DataProcessingOpcode::Add,
        _ => DataProcessingOpcode::Subtract,
    };
    let register: usize = low_register(half, mode, 8);
    make_flagged(opcode, register, make_constant(half & 0xff), register)
}

fn parse_register_instruction(half: u32, mode: CpuMode) -> (r: Instruction)
    ensures
        r == register_instruction(half, mode),
        r.well_formed(),
{
    let kind: u32 = (half >> 6) & 0xf;
    let source: usize = low_register(half, mode, 3);
    let target: usize = low_register(half, mode, 0);
    if kind == 2 || kind == 3 || kind == 4 || kind == 7 {
        let shift_type: u8 = if kind == 7 { 3 } else { (kind - 2) as u8 };
        make_flagged(
            DataProcessingOpcode::Move,
            target,
            Offset::ShiftedRegister {
                register: target,
                shift_type,
                shift: OffsetShift::Register(source),
            },
            target,
        )
    } else if kind == 9 {
        make_flagged(DataProcessingOpcode::ReverseSubtract, source, make_constant(0), target)
    } else if kind == 13 {
        Instruction::Multiply {
            operand1: target,
            operand2: source,
            accumulate: None,
            target,
            set_flags: true,
        }
    } else {
        make_flagged(parse_operation(kind), target, Offset::Register(source), target)
    }
}

fn parse_high(half: u32, mode: CpuMode) -> (r: Instruction)
    ensures
        r == high_instruction(half, mode),
        r.well_formed(),
{
    let source: usize = any_register(half, mode, 3, 6);
    let target: usize = any_register(half, mode, 0, 7);
    match (half >> 8) & 0b11 {
        0 => make_unflagged(DataProcessingOpcode::Add, target, Offset::Register(source), target),
        1 => make_flagged(
            DataProcessingOpcode::TestSubtract,
            target,
            Offset::Register(source),
            target,
        ),
        2 => make_unflagged(DataProcessingOpcode::Move, target, Offset::Register(source), target),
        _ => Instruction::BranchAndExchange { register: source },
    }
}

fn parse_near(half: u32, pc: u32) -> (r: Offset)
    ensures
        r == from_aligned_pc(half, pc),
        r.well_formed(),
{
    proof {
        lemma_half_fields(half);
    }
    make_constant(((half & 0xff) * 4).wrapping_sub(pc & 2))
}

fn parse_indexed_transfer(half: u32, mode: CpuMode) -> (r: Instruction)
    ensures
        r == indexed_transfer(half, mode),
        r.well_formed(),
{
    let index: Indexing = make_indexing(low_register(half, mode, 3));
    let target: usize = low_register(half, mode, 0);
    let offset: Offset = Offset::Register(low_register(half, mode, 6));
    if half.bit(9) {
        let width: HalfwordDataTransferMode = if half.bit(10) {
            if half.bit(11) {
                HalfwordDataTransferMode::LoadSignedHalfword
            } else {
                HalfwordDataTransferMode::LoadSignedByte
            }
        } else if half.bit(11) {
            HalfwordDataTransferMode::LoadUnsignedHalfword
        } else {
            HalfwordDataTransferMode::StoreHalfword
        };
        Instruction::HalfwordDataTransfer { mode: width, index, target, offset }
    } else {
        Instruction::SingleDataTransfer {
            load: half.bit(11),
            index,
            target,
            offset,
            byte: half.bit(10),
        }
    }
}

fn parse_offset_transfer(half: u32, mode: CpuMode) -> (r: Instruction)
    ensures
        r == offset_transfer(half, mode),
        r.well_formed(),
{
    proof {
        lemma_half_fields(half);
    }
    let distance: u32 = (half >> 6) & 0b11111;
    let byte: bool = half.bit(12);
    Instruction::SingleDataTransfer {
        load: half.bit(11),
        index: make_indexing(low_register(half, mode, 3)),
        target: low_register(half, mode, 0),
        offset: make_constant(if byte { distance } else { distance * 4 }),
        byte,
    }
}

fn parse_half_offset_transfer(half: u32, mode: CpuMode) -> (r: Instruction)
    ensures
        r == half_offset_transfer(half, mode),
        r.well_formed(),
{
    proof {
        lemma_half_fields(half);
    }
    let width: HalfwordDataTransferMode = if half.bit(11) {
        HalfwordDataTransferMode::LoadUnsignedHalfword
    } else {
        HalfwordDataTransferMode::StoreHalfword
    };
    Instruction::HalfwordDataTransfer {
        mode: width,
        index: make_indexing(low_register(half, mode, 3)),
        target: low_register(half, mode, 0),
        offset: make_constant(((half >> 6) & 0b11111) * 2),
    }
}

fn parse_stack_transfer(half: u32, mode: CpuMode) -> (r: Instruction)
    ensures
        r == stack_transfer(half, mode),
        r.well_formed(),
{
    proof {
        lemma_half_fields(half);
    }
    Instruction::SingleDataTransfer {
        load: half.bit(11),
        index: make_indexing(register_index(mode, 13)),
        target: low_register(half, mode, 8),
        offset: make_constant((half & 0xff) * 4),
        byte: false,
    }
}

fn parse_address_instruction(half: u32, mode: CpuMode, pc: u32) -> (r: Instruction)
    ensures
        r == address_instruction(half, mode, pc),
        r.well_formed(),
{
    proof {
        lemma_half_fields(half);
    }
    let target: usize = low_register(half, mode, 8);
    if half.bit(11) {
        make_unflagged(
            DataProcessingOpcode::Add,
            register_index(mode, 13),
            make_constant((half & 0xff) * 4),
            target,
        )
    } else {
        make_unflagged(DataProcessingOpcode::Add, 15, parse_near(half, pc), target)
    }
}

fn parse_stack_move(half: u32, mode: CpuMode) -> (r: Instruction)
    ensures
        r == stack_move(half, mode),
        r.well_formed(),
{
    proof {
        lemma_half_fields(half);
    }
    let stack: usize = register_index(mode, 13);
    let opcode: DataProcessingOpcode = if half.bit(7) {
        DataProcessingOpcode::Subtract
    } else {
        DataProcessingOpcode::Add
    };
    make_unflagged(opcode, stack, make_constant((half & 0x7f) * 4), stack)
}

fn parse_stack_block(half: u32, mode: CpuMode) -> (r: Option<Instruction>)
    ensures
        r == stack_block(half, mode),
        decoded_well(r),
{
    let load: bool = half.bit(11);
    let extra: u32 = if half.bit(8) {
        if load { 0x8000 } else { 0x4000 }
    } else {
        0
    };
    let bits: u16 = ((half & 0xff) | extra) as u16;
    if bits == 0 {
        return None;
    }
    Some(
        Instruction::BlockDataTransfer {
            load,
            registers: RegisterList { bits, bank: mode },
            load_spsr: None,
            index: Indexing {
                base: register_index(mode, 13),
                modify_first: !load,
                subtract: !load,
                write_back: true,
            },
        },
    )
}

fn parse_low_block(half: u32, mode: CpuMode) -> (r: Option<Instruction>)
    ensures
        r == low_block(half, mode),
        decoded_well(r),
{
    let load: bool = half.bit(11);
    let bits: u16 = (half & 0xff) as u16;
    if bits == 0 {
        return None;
    }
    let base: u32 = number(half, 8);
    Some(
        Instruction::BlockDataTransfer {
            load,
            registers: RegisterList { bits, bank: mode },
            load_spsr: None,
            index: Indexing {
                base: register_index(mode, base),
                modify_first: false,
                subtract: false,
                write_back: !(load && bits.bit(base as u16)),
            },
        },
    )
}

fn parse_conditional(half: u32) -> (r: Option<(u8, Instruction)>)
    ensures
        r == ({
            let cond = (half >> 8) & 0xf;
            if cond == 15 {
                Some((ALWAYS, Instruction::Interrupt))
            } else if cond == 14 {
                None
            } else {
                Some(
                    (
                        cond as u8,
                        Instruction::Branch { offset: short_distance(half), link_register: None },
                    ),
                )
            }
        }),
        r is Some ==> (r->0).1.well_formed(),
{
    proof {
        lemma_half_fields(half);
    }
    let cond: u32 = (half >> 8) & 0xf;
    if cond == 15 {
        Some((ALWAYS, Instruction::Interrupt))
    } else if cond == 14 {
        None
    } else {
        let units: i32 = (half & 0xff) as i32;
        let offset: i32 = if half.bit(7) { (units - 0x100) * 2 } else { units * 2 };
        Some((cond as u8, Instruction::Branch { offset, link_register: None }))
    }
}

fn parse_long_branch(half: u32) -> (r: Instruction)
    ensures
        r == (Instruction::Branch { offset: long_distance(half), link_register: None }),
{
    proof {
        lemma_half_fields(half);
    }
    let units: i32 = (half & 0x7ff) as i32;
    let offset: i32 = if half.bit(10) { (units - 0x800) * 2 } else { units * 2 };
    Instruction::Branch { offset, link_register: None }
}

fn parse_call_start(half: u32, mode: CpuMode) -> (r: Instruction)
    ensures
        r == call_start(half, mode),
        r.well_formed(),
{
    proof {
        lemma_half_fields(half);
    }
    let units: u32 = half & 0x7ff;
    let value: u32 = if half.bit(10) {
        0xffff_ffff - ((0x800 - units) * 0x1000 - 1)
    } else {
        units * 0x1000
    };
    make_unflagged(DataProcessingOpcode::Add, 15, make_constant(value), register_index(mode, 14))
}

fn parse_call_end(half: u32, mode: CpuMode) -> (r: Instruction)
    ensures
        r == call_end(half, mode),
        r.well_formed(),
{
    proof {
        lemma_half_fields(half);
    }
    Instruction::Branch {
        offset: ((half & 0x7ff) * 2) as i32,
        link_register: Some(register_index(mode, 14)),
    }
}

fn parse_half(half: u32, mode: CpuMode, pc: u32) -> (r: Option<(u8, Instruction)>)
    ensures
        r == half_decoded(half, mode, pc),
        r is Some ==> (r->0).1.well_formed(),
{
    let group: u32 = half >> 11;
    let instruction: Instruction = if group < 3 {
        parse_shift(half, mode)
    } else if group == 3 {
        parse_add(half, mode)
    } else if group < 8 {
        parse_constant_instruction(half, mode)
    } else if group == 8 {
        if half.bit(10) {
            parse_high(half, mode)
        } else {
            parse_register_instruction(half, mode)
        }
    } else if group == 9 {
        Instruction::SingleDataTransfer {
            load: true,
            index: make_indexing(15),
            target: low_register(half, mode, 8),
            offset: parse_near(half, pc),
            byte: false,
        }
    } else if group < 12 {
        parse_indexed_transfer(half, mode)
    } else if group < 16 {
        parse_offset_transfer(half, mode)
    } else if group < 18 {
        parse_half_offset_transfer(half, mode)
    } else if group < 20 {
        parse_stack_transfer(half, mode)
    } else if group < 22 {
        parse_address_instruction(half, mode, pc)
    } else if group < 24 {
        let kind: u32 = (half >> 8) & 0xf;
        if kind == 0 {
            parse_stack_move(half, mode)
        } else if kind == 4 || kind == 5 || kind == 12 || kind == 13 {
            match parse_stack_block(half, mode) {
                Some(instruction) => instruction,
                None => {
                    return None;
                },
            }
        } else {
            return None;
        }
    } else if group < 26 {
        match parse_low_block(half, mode) {
            Some(instruction) => instruction,
            None => {
                return None;
            },
        }
    } else if group < 28 {
        return parse_conditional(half);
    } else if group == 28 {
        parse_long_branch(half)
    } else if group == 29 {
        return None;
    } else if group == 30 {
        parse_call_start(half, mode)
    } else {
        parse_call_end(half, mode)
    };
    Some((ALWAYS, instruction))
}

impl Instruction {
    /// Decodes the half of a word that an instruction at the program counter
    /// lies in, in a mode, into a condition and an instruction.
    pub fn parse_thumb(opcode: u32, mode: CpuMode, pc: u32) -> (r: Result<
        (u8, Instruction),
        InvalidInstruction,
    >)
        ensures
            r is Ok <==> thumb_decoded(opcode, mode, pc) is Some,
            r matches Ok(decoded) ==> thumb_decoded(opcode, mode, pc) == Some(decoded)
                && decoded.1.well_formed(),
    {
        let half: u32 = if pc & 2 == 0 { opcode & 0xffff } else { opcode >> 16 };
        match parse_half(half, mode, pc) {
            Some(decoded) => Ok(decoded),
            None => Err(InvalidInstruction),
        }
    }
}

} // verus!
