//! The decoding of instruction words and half words.

use crate::bits::Bits;
use crate::cpu::arithmetic::{rotate_right, rotated_right};
use crate::cpu::instruction::{
    DataProcessingCpsr, DataProcessingOpcode, HalfwordDataTransferMode, Indexing, Instruction,
    Offset, OffsetShift, RegisterList,
};
use crate::cpu::mode::{banked, register_index, saved_status_of, spsr_index, CpuMode};
use vstd::prelude::*;

verus! {

/// A word that is not an instruction, or one whose effect is not defined.
#[derive(Debug, Clone, Copy)]
pub struct InvalidInstruction;

/// The condition that always holds.
pub const ALWAYS: u8 = 14;

/// The four bits of a word from `shift` on.
pub open spec fn nibble(opcode: u32, shift: u32) -> u32 {
    (opcode >> shift) & 0xf
}

/// The place of the register that the four bits from `shift` on name.
pub open spec fn named(opcode: u32, mode: CpuMode, shift: u32) -> usize {
    banked(mode, nibble(opcode, shift) as int) as usize
}

fn field(opcode: u32, shift: u32) -> (r: u32)
    requires
        shift < 32,
    ensures
        r == nibble(opcode, shift),
        r < 16,
{
    assert((opcode >> shift) & 0xf <= 15) by (bit_vector);
    (opcode >> shift) & 0xf
}

fn name(opcode: u32, mode: CpuMode, shift: u32) -> (r: usize)
    requires
        shift < 32,
    ensures
        r == named(opcode, mode, shift),
        r < 31,
{
    register_index(mode, field(opcode, shift))
}

// ---- words ----

/// A constant operand: eight bits, rotated by twice the rotation field. A
/// rotation leaves the top bit of the constant as carry.
pub open spec fn constant_operand(opcode: u32) -> Offset {
    let rotation = 2 * nibble(opcode, 8);
    let value = rotated_right(opcode & 0xff, rotation as u32);
    Offset::Immediate {
        value,
        carry: if rotation == 0 { None } else { Some(value.has_bit(31)) },
    }
}

/// A shift by a constant. Shifting to the right by no bit stands for shifting
/// by 32.
pub open spec fn constant_shift(shift_type: u8, distance: u32) -> OffsetShift {
    if distance == 0 && (shift_type == 1 || shift_type == 2) {
        OffsetShift::Immediate(32)
    } else {
        OffsetShift::Immediate(distance)
    }
}

/// A register operand, shifted by a constant or by a register.
pub open spec fn register_operand(opcode: u32, mode: CpuMode) -> Offset {
    let shift_type = ((opcode >> 5) & 0b11) as u8;
    Offset::ShiftedRegister {
        register: named(opcode, mode, 0),
        shift_type,
        shift: if opcode.has_bit(4) {
            OffsetShift::Register(named(opcode, mode, 8))
        } else {
            constant_shift(shift_type, (opcode >> 7) & 0b11111)
        },
    }
}

/// How a transfer makes its address.
pub open spec fn word_indexing(opcode: u32, mode: CpuMode) -> Indexing {
    Indexing {
        base: named(opcode, mode, 16),
        modify_first: opcode.has_bit(24),
        subtract: !opcode.has_bit(23),
        write_back: opcode.has_bit(21),
    }
}

/// The operation with this number.
pub open spec fn operation(number: u32) -> DataProcessingOpcode {
    if number == 0 {
        DataProcessingOpcode::And
    } else if number == 1 {
        DataProcessingOpcode::Xor
    } else if number == 2 {
        DataProcessingOpcode::Subtract
    } else if number == 3 {
        DataProcessingOpcode::ReverseSubtract
    } else if number == 4 {
        DataProcessingOpcode::Add
    } else if number == 5 {
        DataProcessingOpcode::AddWithCarry
    } else if number == 6 {
        DataProcessingOpcode::SubtractWithCarry
    } else if number == 7 {
        DataProcessingOpcode::ReverseSubtractWithCarry
    } else if number == 8 {
        DataProcessingOpcode::TestAnd
    } else if number == 9 {
        DataProcessingOpcode::TestXor
    } else if number == 10 {
        DataProcessingOpcode::TestSubtract
    } else if number == 11 {
        DataProcessingOpcode::TestAdd
    } else if number == 12 {
        DataProcessingOpcode::Or
    } else if number == 13 {
        DataProcessingOpcode::Move
    } else if number == 14 {
        DataProcessingOpcode::BitClear
    } else {
        DataProcessingOpcode::MoveNot
    }
}

/// A data processing instruction. Setting flags with the program counter as
/// target restores the saved status, which a mode without one cannot; a test
/// that sets no flags is not an instruction.
pub open spec fn data_processing(opcode: u32, mode: CpuMode, operand2: Offset) -> Option<
    Instruction,
> {
    let number = nibble(opcode, 21);
    let effect = if !opcode.has_bit(20) {
        if 8 <= number < 12 { None } else { Some(DataProcessingCpsr::Unchanged) }
    } else if nibble(opcode, 12) == 15 {
        match saved_status_of(mode) {
            Some(saved) => Some(DataProcessingCpsr::LoadSpsr(saved)),
            None => None,
        }
    } else {
        Some(DataProcessingCpsr::SetFlags)
    };
    match effect {
        Some(cpsr) => Some(
            Instruction::DataProcessing {
                cpsr,
                opcode: operation(number),
                operand1: named(opcode, mode, 16),
                operand2,
                target: named(opcode, mode, 12),
            },
        ),
        None => None,
    }
}

/// The bits of a status register that an instruction writes: one byte for each
/// of the four field bits. In the user mode only the top byte of the current
/// status register can be written.
pub open spec fn status_mask(opcode: u32, mode: CpuMode) -> u32 {
    let control = if opcode.has_bit(16) { 0xffu32 } else { 0 };
    let extension = if opcode.has_bit(17) { 0xff00u32 } else { 0 };
    let status = if opcode.has_bit(18) { 0xff_0000u32 } else { 0 };
    let flags = if opcode.has_bit(19) { 0xff00_0000u32 } else { 0 };
    if mode == CpuMode::User {
        flags
    } else {
        control | extension | status | flags
    }
}

/// The status register that bit 22 selects; `None` where the mode has no saved
/// one.
pub open spec fn selected_status(opcode: u32, mode: CpuMode) -> Option<Option<usize>> {
    if opcode.has_bit(22) {
        match saved_status_of(mode) {
            Some(saved) => Some(Some(saved)),
            None => None,
        }
    } else {
        Some(None)
    }
}

/// A write to a status register.
pub open spec fn status_write(opcode: u32, mode: CpuMode, source: Offset) -> Option<Instruction> {
    match selected_status(opcode, mode) {
        Some(spsr) => Some(
            Instruction::StorePsr { spsr, source, mask: status_mask(opcode, mode) },
        ),
        None => None,
    }
}

/// A read of a status register.
pub open spec fn status_read(opcode: u32, mode: CpuMode) -> Option<Instruction> {
    match selected_status(opcode, mode) {
        Some(spsr) => Some(Instruction::LoadPsr { spsr, target: named(opcode, mode, 12) }),
        None => None,
    }
}

/// A half word transfer. Stores of signed values are not instructions.
pub open spec fn half_transfer(opcode: u32, mode: CpuMode) -> Option<Instruction> {
    let kind = (opcode >> 5) & 0b11;
    let width = if opcode.has_bit(20) {
        if kind == 1 {
            Some(HalfwordDataTransferMode::LoadUnsignedHalfword)
        } else if kind == 2 {
            Some(HalfwordDataTransferMode::LoadSignedByte)
        } else {
            Some(HalfwordDataTransferMode::LoadSignedHalfword)
        }
    } else if kind == 1 {
        Some(HalfwordDataTransferMode::StoreHalfword)
    } else {
        None
    };
    match width {
        Some(width) => Some(
            Instruction::HalfwordDataTransfer {
                mode: width,
                index: word_indexing(opcode, mode),
                target: named(opcode, mode, 12),
                offset: if opcode.has_bit(22) {
                    Offset::Immediate {
                        value: (nibble(opcode, 8) * 16 + nibble(opcode, 0)) as u32,
                        carry: None,
                    }
                } else {
                    Offset::Register(named(opcode, mode, 0))
                },
            },
        ),
        None => None,
    }
}

/// A product of 32 bits.
pub open spec fn short_multiply(opcode: u32, mode: CpuMode) -> Instruction {
    Instruction::Multiply {
        operand1: named(opcode, mode, 0),
        operand2: named(opcode, mode, 8),
        accumulate: if opcode.has_bit(21) { Some(named(opcode, mode, 12)) } else { None },
        target: named(opcode, mode, 16),
        set_flags: opcode.has_bit(20),
    }
}

/// A product of 64 bits.
pub open spec fn long_multiply(opcode: u32, mode: CpuMode) -> Instruction {
    Instruction::MultiplyLong {
        operand1: named(opcode, mode, 0),
        operand2: named(opcode, mode, 8),
        target_low: named(opcode, mode, 12),
        target_high: named(opcode, mode, 16),
        accumulate: opcode.has_bit(21),
        signed: opcode.has_bit(22),
        set_flags: opcode.has_bit(20),
    }
}

/// An exchange with memory.
pub open spec fn data_swap(opcode: u32, mode: CpuMode) -> Instruction {
    Instruction::SingleDataSwap {
        source: named(opcode, mode, 0),
        target: named(opcode, mode, 12),
        base: named(opcode, mode, 16),
        byte: opcode.has_bit(22),
    }
}

/// A transfer of a word or a byte.
pub open spec fn data_transfer(opcode: u32, mode: CpuMode, offset: Offset) -> Instruction {
    Instruction::SingleDataTransfer {
        load: opcode.has_bit(20),
        index: word_indexing(opcode, mode),
        target: named(opcode, mode, 12),
        offset,
        byte: opcode.has_bit(22),
    }
}

/// A block transfer. With bit 22 a load that includes the program counter
/// restores the saved status, and any other transfer uses the registers of the
/// user mode. A base that is loaded is not written back. A list without
/// registers has no defined effect.
pub open spec fn block_transfer(opcode: u32, mode: CpuMode) -> Option<Instruction> {
    let bits = (opcode & 0xffff) as u16;
    let load = opcode.has_bit(20);
    let restores = opcode.has_bit(22) && load && bits.has_bit(15);
    if bits == 0 || (restores && saved_status_of(mode) is None) {
        None
    } else {
        let index = word_indexing(opcode, mode);
        Some(
            Instruction::BlockDataTransfer {
                load,
                registers: RegisterList {
                    bits,
                    bank: if opcode.has_bit(22) && !restores { CpuMode::User } else { mode },
                },
                load_spsr: if restores { saved_status_of(mode) } else { None },
                index: Indexing {
                    write_back: index.write_back && !(load && bits.has_bit(
                        nibble(opcode, 16) as u16,
                    )),
                    ..index
                },
            },
        )
    }
}

/// The distance of a branch: 24 bits with a sign, in words.
pub open spec fn branch_distance(opcode: u32) -> i32 {
    let words = opcode & 0xff_ffff;
    if opcode.has_bit(23) { ((words - 0x100_0000) * 4) as i32 } else { (words * 4) as i32 }
}

/// A branch.
pub open spec fn word_branch(opcode: u32, mode: CpuMode) -> Instruction {
    Instruction::Branch {
        offset: branch_distance(opcode),
        link_register: if opcode.has_bit(24) { Some(banked(mode, 14) as usize) } else { None },
    }
}

/// The instructions with 000 in the bits 27 to 25.
pub open spec fn register_group(opcode: u32, mode: CpuMode) -> Option<Instruction> {
    if opcode & 0x0fff_fff0 == 0x012f_ff10 {
        Some(Instruction::BranchAndExchange { register: named(opcode, mode, 0) })
    } else if opcode & 0x0fc0_00f0 == 0x0000_0090 {
        Some(short_multiply(opcode, mode))
    } else if opcode & 0x0f80_00f0 == 0x0080_0090 {
        Some(long_multiply(opcode, mode))
    } else if opcode & 0x0fb0_0ff0 == 0x0100_0090 {
        Some(data_swap(opcode, mode))
    } else if opcode & 0x90 == 0x90 {
        if opcode & 0x60 == 0 { None } else { half_transfer(opcode, mode) }
    } else if opcode & 0x0fbf_0fff == 0x010f_0000 {
        status_read(opcode, mode)
    } else if opcode & 0x0fb0_fff0 == 0x0120_f000 {
        status_write(opcode, mode, register_operand(opcode, mode))
    } else {
        data_processing(opcode, mode, register_operand(opcode, mode))
    }
}

/// The instruction that a word stands for, with its condition aside.
pub open spec fn word_instruction(opcode: u32, mode: CpuMode) -> Option<Instruction> {
    let group = (opcode >> 25) & 0b111;
    if group == 0 {
        register_group(opcode, mode)
    } else if group == 1 {
        if opcode & 0x0fb0_f000 == 0x0320_f000 {
            status_write(opcode, mode, constant_operand(opcode))
        } else {
            data_processing(opcode, mode, constant_operand(opcode))
        }
    } else if group == 2 {
        Some(
            data_transfer(
                opcode,
                mode,
                Offset::Immediate { value: opcode & 0xfff, carry: None },
            ),
        )
    } else if group == 3 {
        if opcode.has_bit(4) {
            None
        } else {
            Some(data_transfer(opcode, mode, register_operand(opcode, mode)))
        }
    } else if group == 4 {
        block_transfer(opcode, mode)
    } else if group == 5 {
        Some(word_branch(opcode, mode))
    } else if group == 7 && opcode.has_bit(24) {
        Some(Instruction::Interrupt)
    } else {
        None
    }
}

/// The condition and the instruction that a word stands for.
pub open spec fn word_decoded(opcode: u32, mode: CpuMode) -> Option<(u8, Instruction)> {
    match word_instruction(opcode, mode) {
        Some(instruction) => Some(((opcode >> 28) as u8, instruction)),
        None => None,
    }
}

/// The instruction that a word stands for does not depend on its condition, the
/// top four bits.
pub proof fn condition_is_apart_from_instruction(a: u32, b: u32, mode: CpuMode)
    requires
        a & 0x0fff_ffff == b & 0x0fff_ffff,
    ensures
        word_instruction(a, mode) == word_instruction(b, mode),
        word_decoded(a, mode) is Some == word_decoded(b, mode) is Some,
        word_decoded(a, mode) is Some ==> (word_decoded(a, mode)->0).1 == (word_decoded(
            b,
            mode,
        )->0).1,
{
    assert(a & (1u32 << 4) == b & (1u32 << 4)
        && a & (1u32 << 16) == b & (1u32 << 16)
        && a & (1u32 << 17) == b & (1u32 << 17)
        && a & (1u32 << 18) == b & (1u32 << 18)
        && a & (1u32 << 19) == b & (1u32 << 19)
        && a & (1u32 << 20) == b & (1u32 << 20)
        && a & (1u32 << 21) == b & (1u32 << 21)
        && a & (1u32 << 22) == b & (1u32 << 22)
        && a & (1u32 << 23) == b & (1u32 << 23)
        && a & (1u32 << 24) == b & (1u32 << 24)
        && (a >> 0) & 0xf == (b >> 0) & 0xf
        && (a >> 8) & 0xf == (b >> 8) & 0xf
        && (a >> 12) & 0xf == (b >> 12) & 0xf
        && (a >> 16) & 0xf == (b >> 16) & 0xf
        && (a >> 21) & 0xf == (b >> 21) & 0xf
        && (a >> 5) & 0b11 == (b >> 5) & 0b11
        && (a >> 7) & 0b11111 == (b >> 7) & 0b11111
        && (a >> 25) & 0b111 == (b >> 25) & 0b111
        && a & 0x0fff_fff0 == b & 0x0fff_fff0
        && a & 0x0fc0_00f0 == b & 0x0fc0_00f0
        && a & 0x0f80_00f0 == b & 0x0f80_00f0
        && a & 0x0fb0_0ff0 == b & 0x0fb0_0ff0
        && a & 0x90 == b & 0x90
        && a & 0x60 == b & 0x60
        && a & 0x0fbf_0fff == b & 0x0fbf_0fff
        && a & 0x0fb0_fff0 == b & 0x0fb0_fff0
        && a & 0x0fb0_f000 == b & 0x0fb0_f000
        && a & 0xff_ffff == b & 0xff_ffff
        && a & 0xffff == b & 0xffff
        && a & 0xfff == b & 0xfff
        && a & 0xff == b & 0xff) by (bit_vector)
        requires
            a & 0x0fff_ffff == b & 0x0fff_ffff,
    ;
}

/// A word that can be decoded names only registers that exist, and only shifts
/// that are defined.
pub proof fn decoded_word_is_well_formed(opcode: u32, mode: CpuMode)
    ensures
        word_instruction(opcode, mode) matches Some(instruction) ==> instruction.well_formed(),
{
    assert((opcode >> 0) & 0xf <= 15 && (opcode >> 8) & 0xf <= 15 && (opcode >> 12) & 0xf <= 15
        && (opcode >> 16) & 0xf <= 15 && (opcode >> 5) & 0b11 <= 3) by (bit_vector);
}

/// The ranges of groups of bits of a word.
proof fn lemma_word_fields(opcode: u32)
    ensures
        (opcode >> 5) & 0b11 <= 3,
        opcode & 0xff_ffff <= 0xff_ffff,
{
    assert((opcode >> 5) & 0b11 <= 3 && opcode & 0xff_ffff <= 0xff_ffff) by (bit_vector);
}

fn parse_constant(opcode: u32) -> (r: Offset)
    ensures
        r == constant_operand(opcode),
        r.well_formed(),
{
    let rotation: u32 = 2 * field(opcode, 8);
    let value: u32 = rotate_right(opcode & 0xff, rotation);
    Offset::Immediate { value, carry: if rotation == 0 { None } else { Some(value.bit(31)) } }
}

pub(crate) fn parse_constant_shift(shift_type: u8, distance: u32) -> (r: OffsetShift)
    ensures
        r == constant_shift(shift_type, distance),
{
    if distance == 0 && (shift_type == 1 || shift_type == 2) {
        OffsetShift::Immediate(32)
    } else {
        OffsetShift::Immediate(distance)
    }
}

fn parse_register(opcode: u32, mode: CpuMode) -> (r: Offset)
    ensures
        r == register_operand(opcode, mode),
        r.well_formed(),
{
    proof {
        lemma_word_fields(opcode);
    }
    let shift_type: u8 = ((opcode >> 5) & 0b11) as u8;
    Offset::ShiftedRegister {
        register: name(opcode, mode, 0),
        shift_type,
        shift: if opcode.bit(4) {
            OffsetShift::Register(name(opcode, mode, 8))
        } else {
            parse_constant_shift(shift_type, (opcode >> 7) & 0b11111)
        },
    }
}

fn parse_indexing(opcode: u32, mode: CpuMode) -> (r: Indexing)
    ensures
        r == word_indexing(opcode, mode),
        r.base < 31,
{
    Indexing {
        base: name(opcode, mode, 16),
        modify_first: opcode.bit(24),
        subtract: !opcode.bit(23),
        write_back: opcode.bit(21),
    }
}

pub(crate) fn parse_operation(number: u32) -> (r: DataProcessingOpcode)
    ensures
        r == operation(number),
{
    match number {
        0 => DataProcessingOpcode::And,
        1 => DataProcessingOpcode::Xor,
        2 => DataProcessingOpcode::Subtract,
        3 => DataProcessingOpcode::ReverseSubtract,
        4 => DataProcessingOpcode::Add,
        5 => DataProcessingOpcode::AddWithCarry,
        6 => DataProcessingOpcode::SubtractWithCarry,
        7 => DataProcessingOpcode::ReverseSubtractWithCarry,
        8 => DataProcessingOpcode::TestAnd,
        9 => DataProcessingOpcode::TestXor,
        10 => DataProcessingOpcode::TestSubtract,
        11 => DataProcessingOpcode::TestAdd,
        12 => DataProcessingOpcode::Or,
        13 => DataProcessingOpcode::Move,
        14 => DataProcessingOpcode::BitClear,
        _ => DataProcessingOpcode::MoveNot,
    }
}

/// Whether what was decoded names only registers that exist.
pub open spec fn decoded_well(instruction: Option<Instruction>) -> bool {
    instruction is Some ==> (instruction->0).well_formed()
}

fn parse_data_processing(opcode: u32, mode: CpuMode, operand2: Offset) -> (r: Option<Instruction>)
    requires
        operand2.well_formed(),
    ensures
        r == data_processing(opcode, mode, operand2),
        decoded_well(r),
{
    let number: u32 = field(opcode, 21);
    let cpsr: DataProcessingCpsr = if !opcode.bit(20) {
        if 8 <= number && number < 12 {
            return None;
        }
        DataProcessingCpsr::Unchanged
    } else if field(opcode, 12) == 15 {
        match spsr_index(mode) {
            Some(saved) => DataProcessingCpsr::LoadSpsr(saved),
            None => {
                return None;
            },
        }
    } else {
        DataProcessingCpsr::SetFlags
    };
    Some(
        Instruction::DataProcessing {
            cpsr,
            opcode: parse_operation(number),
            operand1: name(opcode, mode, 16),
            operand2,
            target: name(opcode, mode, 12),
        },
    )
}

fn parse_status_mask(opcode: u32, mode: CpuMode) -> (r: u32)
    ensures
        r == status_mask(opcode, mode),
{
    let control: u32 = if opcode.bit(16) { 0xff } else { 0 };
    let extension: u32 = if opcode.bit(17) { 0xff00 } else { 0 };
    let status: u32 = if opcode.bit(18) { 0xff_0000 } else { 0 };
    let flags: u32 = if opcode.bit(19) { 0xff00_0000 } else { 0 };
    if mode == CpuMode::User {
        flags
    } else {
        control | extension | status | flags
    }
}

fn parse_selected_status(opcode: u32, mode: CpuMode) -> (r: Option<Option<usize>>)
    ensures
        r == selected_status(opcode, mode),
        r is Some && r->0 is Some ==> r->0->0 < 5,
{
    if opcode.bit(22) {
        match spsr_index(mode) {
            Some(saved) => Some(Some(saved)),
            None => None,
        }
    } else {
        Some(None)
    }
}

fn parse_status_write(opcode: u32, mode: CpuMode, source: Offset) -> (r: Option<Instruction>)
    requires
        source.well_formed(),
    ensures
        r == status_write(opcode, mode, source),
        decoded_well(r),
{
    match parse_selected_status(opcode, mode) {
        Some(spsr) => Some(
            Instruction::StorePsr { spsr, source, mask: parse_status_mask(opcode, mode) },
        ),
        None => None,
    }
}

fn parse_half_transfer(opcode: u32, mode: CpuMode) -> (r: Option<Instruction>)
    ensures
        r == half_transfer(opcode, mode),
        decoded_well(r),
{
    let kind: u32 = (opcode >> 5) & 0b11;
    let width: HalfwordDataTransferMode = if opcode.bit(20) {
        if kind == 1 {
            HalfwordDataTransferMode::LoadUnsignedHalfword
        } else if kind == 2 {
            HalfwordDataTransferMode::LoadSignedByte
        } else {
            HalfwordDataTransferMode::LoadSignedHalfword
        }
    } else if kind == 1 {
        HalfwordDataTransferMode::StoreHalfword
    } else {
        return None;
    };
    let offset: Offset = if opcode.bit(22) {
        Offset::Immediate { value: field(opcode, 8) * 16 + field(opcode, 0), carry: None }
    } else {
        Offset::Register(name(opcode, mode, 0))
    };
    Some(
        Instruction::HalfwordDataTransfer {
            mode: width,
            index: parse_indexing(opcode, mode),
            target: name(opcode, mode, 12),
            offset,
        },
    )
}

fn parse_data_transfer(opcode: u32, mode: CpuMode, offset: Offset) -> (r: Instruction)
    requires
        offset.well_formed(),
    ensures
        r == data_transfer(opcode, mode, offset),
        r.well_formed(),
{
    Instruction::SingleDataTransfer {
        load: opcode.bit(20),
        index: parse_indexing(opcode, mode),
        target: name(opcode, mode, 12),
        offset,
        byte: opcode.bit(22),
    }
}

fn parse_block_transfer(opcode: u32, mode: CpuMode) -> (r: Option<Instruction>)
    ensures
        r == block_transfer(opcode, mode),
        decoded_well(r),
{
    let bits: u16 = (opcode & 0xffff) as u16;
    let load: bool = opcode.bit(20);
    let restores: bool = opcode.bit(22) && load && bits.bit(15);
    let load_spsr: Option<usize> = if restores { spsr_index(mode) } else { None };
    if bits == 0 || (restores && load_spsr.is_none()) {
        return None;
    }
    let mut index: Indexing = parse_indexing(opcode, mode);
    index.write_back = index.write_back && !(load && bits.bit(field(opcode, 16) as u16));
    let bank: CpuMode = if opcode.bit(22) && !restores { CpuMode::User } else { mode };
    Some(
        Instruction::BlockDataTransfer {
            load,
            registers: RegisterList { bits, bank },
            load_spsr,
            index,
        },
    )
}

fn parse_branch(opcode: u32, mode: CpuMode) -> (r: Instruction)
    ensures
        r == word_branch(opcode, mode),
        r.well_formed(),
{
    proof {
        lemma_word_fields(opcode);
    }
    let words: i32 = (opcode & 0xff_ffff) as i32;
    let offset: i32 = if opcode.bit(23) { (words - 0x100_0000) * 4 } else { words * 4 };
    let link_register: Option<usize> = if opcode.bit(24) {
        Some(register_index(mode, 14))
    } else {
        None
    };
    Instruction::Branch { offset, link_register }
}

fn parse_register_group(opcode: u32, mode: CpuMode) -> (r: Option<Instruction>)
    ensures
        r == register_group(opcode, mode),
        decoded_well(r),
{
    if opcode & 0x0fff_fff0 == 0x012f_ff10 {
        Some(Instruction::BranchAndExchange { register: name(opcode, mode, 0) })
    } else if opcode & 0x0fc0_00f0 == 0x0000_0090 {
        let accumulate: Option<usize> = if opcode.bit(21) {
            Some(name(opcode, mode, 12))
        } else {
            None
        };
        Some(
            Instruction::Multiply {
                operand1: name(opcode, mode, 0),
                operand2: name(opcode, mode, 8),
                accumulate,
                target: name(opcode, mode, 16),
                set_flags: opcode.bit(20),
            },
        )
    } else if opcode & 0x0f80_00f0 == 0x0080_0090 {
        Some(
            Instruction::MultiplyLong {
                operand1: name(opcode, mode, 0),
                operand2: name(opcode, mode, 8),
                target_low: name(opcode, mode, 12),
                target_high: name(opcode, mode, 16),
                accumulate: opcode.bit(21),
                signed: opcode.bit(22),
                set_flags: opcode.bit(20),
            },
        )
    } else if opcode & 0x0fb0_0ff0 == 0x0100_0090 {
        Some(
            Instruction::SingleDataSwap {
                source: name(opcode, mode, 0),
                target: name(opcode, mode, 12),
                base: name(opcode, mode, 16),
                byte: opcode.bit(22),
            },
        )
    } else if opcode & 0x90 == 0x90 {
        if opcode & 0x60 == 0 { None } else { parse_half_transfer(opcode, mode) }
    } else if opcode & 0x0fbf_0fff == 0x010f_0000 {
        match parse_selected_status(opcode, mode) {
            Some(spsr) => Some(Instruction::LoadPsr { spsr, target: name(opcode, mode, 12) }),
            None => None,
        }
    } else if opcode & 0x0fb0_fff0 == 0x0120_f000 {
        parse_status_write(opcode, mode, parse_register(opcode, mode))
    } else {
        parse_data_processing(opcode, mode, parse_register(opcode, mode))
    }
}

fn parse_word(opcode: u32, mode: CpuMode) -> (r: Option<Instruction>)
    ensures
        r == word_instruction(opcode, mode),
        decoded_well(r),
{
    match (opcode >> 25) & 0b111 {
        0 => parse_register_group(opcode, mode),
        1 => if opcode & 0x0fb0_f000 == 0x0320_f000 {
            parse_status_write(opcode, mode, parse_constant(opcode))
        } else {
            parse_data_processing(opcode, mode, parse_constant(opcode))
        },
        2 => Some(
            parse_data_transfer(
                opcode,
                mode,
                Offset::Immediate { value: opcode & 0xfff, carry: None },
            ),
        ),
        3 => if opcode.bit(4) {
            None
        } else {
            Some(parse_data_transfer(opcode, mode, parse_register(opcode, mode)))
        },
        4 => parse_block_transfer(opcode, mode),
        5 => Some(parse_branch(opcode, mode)),
        7 => if opcode.bit(24) {
            Some(Instruction::Interrupt)
        } else {
            None
        },
        _ => None,
    }
}

impl Instruction {
    /// Decodes a word in a mode into a condition and an instruction.
    pub fn parse(opcode: u32, mode: CpuMode) -> (r: Result<(u8, Instruction), InvalidInstruction>)
        ensures
            r is Ok <==> word_decoded(opcode, mode) is Some,
            r matches Ok(decoded) ==> word_decoded(opcode, mode) == Some(decoded)
                && decoded.1.well_formed(),
    {
        match parse_word(opcode, mode) {
            Some(instruction) => Ok(((opcode >> 28) as u8, instruction)),
            None => Err(InvalidInstruction),
        }
    }
}

} // verus!
