//! What instructions are written as: the numbers in a word or half word, and the
//! instruction that they stand for.

use crate::bits::Bits;
use crate::cpu::arithmetic::{computed, keeps_result, rotated_right};
use crate::cpu::instruction::{
    DataProcessingCpsr, DataProcessingOpcode, HalfwordDataTransferMode, Indexing, Instruction,
    Offset, OffsetShift, RegisterList,
};
use crate::cpu::mode::{banked, saved_status_of, CpuMode};
use crate::cpu::parser::{nibble, operation, word_decoded};
use crate::cpu::thumb::{addressed_half, half_decoded};
use vstd::prelude::*;

verus! {

/// A part of a word as a number: the word divided by a unit, modulo a base.
#[verifier::opaque]
pub open spec fn digit(word: u32, unit: u32, base: u32) -> u32 {
    word / unit % base
}

/// The place of the register whose number stands at a unit of a word.
pub open spec fn place(word: u32, mode: CpuMode, unit: u32) -> usize {
    banked(mode, digit(word, unit, 16) as int) as usize
}

/// Whether the bit at a unit of a word is one.
pub open spec fn one(word: u32, unit: u32) -> bool {
    digit(word, unit, 2) == 1
}

proof fn lemma_word_digits(word: u32)
    ensures
        word.has_bit(4) == one(word, 0x10),
        word.has_bit(16) == one(word, 0x1_0000),
        word.has_bit(17) == one(word, 0x2_0000),
        word.has_bit(18) == one(word, 0x4_0000),
        word.has_bit(19) == one(word, 0x8_0000),
        word.has_bit(20) == one(word, 0x10_0000),
        word.has_bit(21) == one(word, 0x20_0000),
        word.has_bit(22) == one(word, 0x40_0000),
        word.has_bit(23) == one(word, 0x80_0000),
        word.has_bit(24) == one(word, 0x100_0000),
        nibble(word, 0) == digit(word, 1, 16),
        nibble(word, 8) == digit(word, 0x100, 16),
        nibble(word, 12) == digit(word, 0x1000, 16),
        nibble(word, 16) == digit(word, 0x1_0000, 16),
        nibble(word, 21) == digit(word, 0x20_0000, 16),
        nibble(word, 8) < 16,
        nibble(word, 21) < 16,
        (word >> 28) == digit(word, 0x1000_0000, 16),
        (word >> 5) & 0b11 == digit(word, 0x20, 4),
        digit(word, 0x20, 4) < 4,
        (word >> 7) & 0b11111 == digit(word, 0x80, 32),
        (word >> 25) & 0b111 == digit(word, 0x200_0000, 8),
        word & 0xff == digit(word, 1, 0x100),
        word & 0xfff == digit(word, 1, 0x1000),
        word & 0xffff == digit(word, 1, 0x1_0000),
        digit(word, 1, 0x1_0000) < 0x1_0000,
        word & 0xff_ffff == digit(word, 1, 0x100_0000),
        digit(word, 1, 0x100_0000) < 0x100_0000,
        word.has_bit(23) == (digit(word, 1, 0x100_0000) >= 0x80_0000),
        (word & 0x0fff_fff0 == 0x012f_ff10) == (digit(word, 0x10, 0x100_0000) == 0x12_fff1),
        (word & 0x0fc0_00f0 == 0x90) == (digit(word, 0x40_0000, 64) == 0 && digit(word, 0x10, 16)
            == 9),
        (word & 0x0f80_00f0 == 0x0080_0090) == (digit(word, 0x80_0000, 32) == 1 && digit(
            word,
            0x10,
            16,
        ) == 9),
        (word & 0x0fb0_0ff0 == 0x0100_0090) == (digit(word, 0x80_0000, 32) == 2 && digit(
            word,
            0x10_0000,
            4,
        ) == 0 && digit(word, 0x10, 0x100) == 9),
        (word & 0x90 == 0x90) == (one(word, 0x80) && one(word, 0x10)),
        (word & 0x60 == 0) == (digit(word, 0x20, 4) == 0),
        (word & 0x0fbf_0fff == 0x010f_0000) == (digit(word, 0x80_0000, 32) == 2 && digit(
            word,
            0x1_0000,
            64,
        ) == 15 && digit(word, 1, 0x1000) == 0),
        (word & 0x0fb0_fff0 == 0x0120_f000) == (digit(word, 0x80_0000, 32) == 2 && digit(
            word,
            0x10_0000,
            4,
        ) == 2 && digit(word, 0x10, 0x1000) == 0xf00),
        (word & 0x0fb0_f000 == 0x0320_f000) == (digit(word, 0x80_0000, 32) == 6 && digit(
            word,
            0x10_0000,
            4,
        ) == 2 && digit(word, 0x1000, 16) == 15),
        digit(word, 0x80_0000, 32) == 4 * digit(word, 0x200_0000, 8) + digit(word, 0x80_0000, 4),
        digit(word, 0x40_0000, 64) == 2 * digit(word, 0x80_0000, 32) + digit(word, 0x40_0000, 2),
        digit(word, 0x20_0000, 16) == 4 * digit(word, 0x80_0000, 4) + digit(word, 0x20_0000, 4),
        digit(word, 0x20_0000, 4) < 4,
        digit(word, 0x80_0000, 4) < 4,
        digit(word, 0x10_0000, 4) == 2 * digit(word, 0x20_0000, 2) + digit(word, 0x10_0000, 2),
        digit(word, 0x10, 16) == 8 * digit(word, 0x80, 2) + 2 * digit(word, 0x20, 4) + digit(
            word,
            0x10,
            2,
        ),
        digit(word, 0x10, 0x100) == 16 * digit(word, 0x100, 16) + digit(word, 0x10, 16),
        digit(word, 0x10, 0x100_0000) == 0x12_fff1 ==> digit(word, 0x200_0000, 8) == 0 && digit(
            word,
            0x80_0000,
            4,
        ) == 2 && digit(word, 0x10_0000, 2) == 0 && digit(word, 0x10, 16) == 1,
        digit(word, 0x1_0000, 64) == 16 * digit(word, 0x10_0000, 4) + digit(word, 0x1_0000, 16),
        digit(word, 0x1_0000, 16) < 16,
        digit(word, 0x1000_0000, 16) < 16,
        digit(word, 0x10, 0x1000) == 0xf00 ==> digit(word, 0x10, 16) == 0,
        digit(word, 1, 0x1000) == 0 ==> digit(word, 0x10, 16) == 0,
        digit(word, 0x10, 16) < 16,
        digit(word, 0x10_0000, 2) < 2,
        digit(word, 0x20_0000, 2) < 2,
        digit(word, 0x40_0000, 2) < 2,
        digit(word, 0x80, 2) < 2,
        digit(word, 0x10, 2) < 2,
{
    reveal(digit);
    assert(((word & (1u32 << 4)) != 0) == (word / 0x10 % 2 == 1) && ((word & (1u32 << 16)) != 0)
        == (word / 0x1_0000 % 2 == 1) && ((word & (1u32 << 17)) != 0) == (word / 0x2_0000 % 2 == 1)
        && ((word & (1u32 << 18)) != 0) == (word / 0x4_0000 % 2 == 1) && ((word & (1u32 << 19))
        != 0) == (word / 0x8_0000 % 2 == 1) && ((word & (1u32 << 20)) != 0) == (word / 0x10_0000 % 2
        == 1) && ((word & (1u32 << 21)) != 0) == (word / 0x20_0000 % 2 == 1) && ((word & (1u32
        << 22)) != 0) == (word / 0x40_0000 % 2 == 1) && ((word & (1u32 << 23)) != 0) == (word
        / 0x80_0000 % 2 == 1) && ((word & (1u32 << 24)) != 0) == (word / 0x100_0000 % 2 == 1)
        && (word >> 0) & 0xf == word / 1 % 16 && (word >> 8) & 0xf == word / 0x100 % 16 && (word
        >> 12) & 0xf == word / 0x1000 % 16 && (word >> 16) & 0xf == word / 0x1_0000 % 16 && (word
        >> 21) & 0xf == word / 0x20_0000 % 16 && word >> 28 == word / 0x1000_0000 % 16 && (word
        >> 5) & 0b11 == word / 0x20 % 4 && (word >> 7) & 0b11111 == word / 0x80 % 32 && (word >> 25)
        & 0b111 == word / 0x200_0000 % 8 && word & 0xff == word / 1 % 0x100 && word & 0xfff == word
        / 1 % 0x1000 && word & 0xffff == word / 1 % 0x1_0000 && word & 0xff_ffff == word / 1
        % 0x100_0000 && ((word & (1u32 << 23)) != 0) == (word / 1 % 0x100_0000 >= 0x80_0000)
        && (word & 0x0fff_fff0 == 0x012f_ff10) == (word / 0x10 % 0x100_0000 == 0x12_fff1) && (word
        & 0x0fc0_00f0 == 0x90) == (word / 0x40_0000 % 64 == 0 && word / 0x10 % 16 == 9) && (word
        & 0x0f80_00f0 == 0x0080_0090) == (word / 0x80_0000 % 32 == 1 && word / 0x10 % 16 == 9) && (
    word & 0x0fb0_0ff0 == 0x0100_0090) == (word / 0x80_0000 % 32 == 2 && word / 0x10_0000 % 4 == 0
        && word / 0x10 % 0x100 == 9) && (word & 0x90 == 0x90) == (word / 0x80 % 2 == 1 && word
        / 0x10 % 2 == 1) && (word & 0x60 == 0) == (word / 0x20 % 4 == 0) && (word & 0x0fbf_0fff
        == 0x010f_0000) == (word / 0x80_0000 % 32 == 2 && word / 0x1_0000 % 64 == 15 && word / 1
        % 0x1000 == 0) && (word & 0x0fb0_fff0 == 0x0120_f000) == (word / 0x80_0000 % 32 == 2 && word
        / 0x10_0000 % 4 == 2 && word / 0x10 % 0x1000 == 0xf00) && (word & 0x0fb0_f000
        == 0x0320_f000) == (word / 0x80_0000 % 32 == 6 && word / 0x10_0000 % 4 == 2 && word / 0x1000
        % 16 == 15) && word / 0x80_0000 % 32 == 4 * (word / 0x200_0000 % 8) + word / 0x80_0000 % 4
        && word / 0x40_0000 % 64 == 2 * (word / 0x80_0000 % 32) + word / 0x40_0000 % 2 && word
        / 0x20_0000 % 16 == 4 * (word / 0x80_0000 % 4) + word / 0x20_0000 % 4 && word / 0x10_0000
        % 4 == 2 * (word / 0x20_0000 % 2) + word / 0x10_0000 % 2 && word / 0x10 % 16 == 8 * (word
        / 0x80 % 2) + 2 * (word / 0x20 % 4) + word / 0x10 % 2 && word / 0x10 % 0x100 == 16 * (word
        / 0x100 % 16) + word / 0x10 % 16 && (word / 0x10 % 0x100_0000 == 0x12_fff1 ==> word
        / 0x200_0000 % 8 == 0 && word / 0x80_0000 % 4 == 2 && word / 0x10_0000 % 2 == 0 && word / 0x10
        % 16 == 1) && word / 0x1_0000 % 64 == 16 * (word / 0x10_0000 % 4) + word / 0x1_0000 % 16 && (
    word / 0x10 % 0x1000 == 0xf00 ==> word / 0x10 % 16 == 0) && (word / 1 % 0x1000 == 0 ==> word
        / 0x10 % 16 == 0)) by (bit_vector);
}

/// The sixteen operations by their numbers: what each computes from the first operand
/// `a`, the second operand `b` and the carry. Those from 8 to 11 only set the flags that
/// 0, 1, 2 and 4 set.
pub proof fn operations_have_their_numbers(a: u32, b: u32, carry: bool)
    ensures
        computed(operation(0), a, b, carry).value == a & b,
        computed(operation(1), a, b, carry).value == a ^ b,
        operation(2) == DataProcessingOpcode::Subtract,
        operation(3) == DataProcessingOpcode::ReverseSubtract,
        operation(4) == DataProcessingOpcode::Add,
        operation(5) == DataProcessingOpcode::AddWithCarry,
        operation(6) == DataProcessingOpcode::SubtractWithCarry,
        operation(7) == DataProcessingOpcode::ReverseSubtractWithCarry,
        computed(operation(8), a, b, carry) == computed(operation(0), a, b, carry),
        computed(operation(9), a, b, carry) == computed(operation(1), a, b, carry),
        computed(operation(10), a, b, carry) == computed(operation(2), a, b, carry),
        computed(operation(11), a, b, carry) == computed(operation(4), a, b, carry),
        computed(operation(12), a, b, carry).value == a | b,
        computed(operation(13), a, b, carry).value == b,
        computed(operation(14), a, b, carry).value == a & !b,
        computed(operation(15), a, b, carry).value == !b,
        forall|number: u32| number < 16 ==> keeps_result(#[trigger] operation(number)) == !(8
            <= number < 12),
{
}

/// A constant as the second operand: a byte, rotated to the right by twice a number.
/// Where it is rotated, its top bit is the carry.
pub open spec fn written_constant(word: u32) -> Offset {
    let value = rotated_right(digit(word, 1, 0x100), (2 * digit(word, 0x100, 16)) as u32);
    Offset::Immediate {
        value,
        carry: if digit(word, 0x100, 16) == 0 { None } else { Some(value.has_bit(31)) },
    }
}

/// A register as the second operand, with a shift by a number or by a register. A shift
/// to the right by the number zero is one by 32.
pub open spec fn written_register(word: u32, mode: CpuMode) -> Offset {
    let kind = digit(word, 0x20, 4);
    let distance = digit(word, 0x80, 32);
    Offset::ShiftedRegister {
        register: place(word, mode, 1),
        shift_type: kind as u8,
        shift: if one(word, 0x10) {
            OffsetShift::Register(place(word, mode, 0x100))
        } else if distance == 0 && (kind == 1 || kind == 2) {
            OffsetShift::Immediate(32)
        } else {
            OffsetShift::Immediate(distance)
        },
    }
}

/// How an address is written.
pub open spec fn written_address(word: u32, mode: CpuMode) -> Indexing {
    Indexing {
        base: place(word, mode, 0x1_0000),
        modify_first: one(word, 0x100_0000),
        subtract: !one(word, 0x80_0000),
        write_back: one(word, 0x20_0000),
    }
}

/// How a word writes an operation on two operands. Without flags to set, a test is none.
/// Setting flags with the program counter as target takes back the saved status, which
/// the mode must have.
pub proof fn words_of_operations(word: u32, mode: CpuMode)
    requires
        digit(word, 0x200_0000, 8) == 1 || (digit(word, 0x200_0000, 8) == 0 && !(one(word, 0x80)
            && one(word, 0x10))),
        digit(word, 0x80_0000, 4) != 2 || one(word, 0x10_0000),
    ensures
        ({
            let operand2 = if digit(word, 0x200_0000, 8) == 1 {
                written_constant(word)
            } else {
                written_register(word, mode)
            };
            let done = |cpsr: DataProcessingCpsr|
                Some(
                    (
                        digit(word, 0x1000_0000, 16) as u8,
                        Instruction::DataProcessing {
                            cpsr,
                            opcode: operation(digit(word, 0x20_0000, 16)),
                            operand1: place(word, mode, 0x1_0000),
                            operand2,
                            target: place(word, mode, 0x1000),
                        },
                    ),
                );
            &&& !one(word, 0x10_0000) ==> word_decoded(word, mode) == done(
                DataProcessingCpsr::Unchanged,
            )
            &&& one(word, 0x10_0000) && digit(word, 0x1000, 16) != 15 ==> word_decoded(word, mode)
                == done(DataProcessingCpsr::SetFlags)
            &&& one(word, 0x10_0000) && digit(word, 0x1000, 16) == 15 ==> match saved_status_of(
                mode,
            ) {
                Some(saved) => word_decoded(word, mode) == done(DataProcessingCpsr::LoadSpsr(saved)),
                None => word_decoded(word, mode) is None,
            }
        }),
{
    lemma_word_digits(word);
}

/// How a word writes a product of two registers, to which a third may be added.
pub proof fn words_of_products(word: u32, mode: CpuMode)
    requires
        digit(word, 0x10, 16) == 9,
    ensures
        digit(word, 0x40_0000, 64) == 0 ==> word_decoded(word, mode) == Some(
            (
                digit(word, 0x1000_0000, 16) as u8,
                Instruction::Multiply {
                    operand1: place(word, mode, 1),
                    operand2: place(word, mode, 0x100),
                    accumulate: if one(word, 0x20_0000) {
                        Some(place(word, mode, 0x1000))
                    } else {
                        None
                    },
                    target: place(word, mode, 0x1_0000),
                    set_flags: one(word, 0x10_0000),
                },
            ),
        ),
        digit(word, 0x80_0000, 32) == 1 ==> word_decoded(word, mode) == Some(
            (
                digit(word, 0x1000_0000, 16) as u8,
                Instruction::MultiplyLong {
                    operand1: place(word, mode, 1),
                    operand2: place(word, mode, 0x100),
                    target_low: place(word, mode, 0x1000),
                    target_high: place(word, mode, 0x1_0000),
                    accumulate: one(word, 0x20_0000),
                    signed: one(word, 0x40_0000),
                    set_flags: one(word, 0x10_0000),
                },
            ),
        ),
        digit(word, 0x80_0000, 32) == 2 && digit(word, 0x10_0000, 4) == 0 && digit(word, 0x100, 16)
            == 0 ==> word_decoded(word, mode) == Some(
            (
                digit(word, 0x1000_0000, 16) as u8,
                Instruction::SingleDataSwap {
                    source: place(word, mode, 1),
                    target: place(word, mode, 0x1000),
                    base: place(word, mode, 0x1_0000),
                    byte: one(word, 0x40_0000),
                },
            ),
        ),
{
    lemma_word_digits(word);
}

/// How a word writes a transfer of a word, a byte, or a half word.
pub proof fn words_of_transfers(word: u32, mode: CpuMode)
    ensures
        ({
            let cond = digit(word, 0x1000_0000, 16) as u8;
            let group = digit(word, 0x200_0000, 8);
            let kind = digit(word, 0x20, 4);
            let whole = |offset: Offset|
                Some(
                    (
                        cond,
                        Instruction::SingleDataTransfer {
                            load: one(word, 0x10_0000),
                            index: written_address(word, mode),
                            target: place(word, mode, 0x1000),
                            offset,
                            byte: one(word, 0x40_0000),
                        },
                    ),
                );
            let half = |width: HalfwordDataTransferMode|
                Some(
                    (
                        cond,
                        Instruction::HalfwordDataTransfer {
                            mode: width,
                            index: written_address(word, mode),
                            target: place(word, mode, 0x1000),
                            offset: if one(word, 0x40_0000) {
                                Offset::Immediate {
                                    value: (16 * digit(word, 0x100, 16) + digit(word, 1, 16)) as u32,
                                    carry: None,
                                }
                            } else {
                                Offset::Register(place(word, mode, 1))
                            },
                        },
                    ),
                );
            &&& group == 2 ==> word_decoded(word, mode) == whole(
                Offset::Immediate { value: digit(word, 1, 0x1000), carry: None },
            )
            &&& group == 3 && !one(word, 0x10) ==> word_decoded(word, mode) == whole(
                written_register(word, mode),
            )
            &&& group == 3 && one(word, 0x10) ==> word_decoded(word, mode) is None
            &&& group == 0 && one(word, 0x80) && one(word, 0x10) && kind != 0 ==> if !one(
                word,
                0x10_0000,
            ) {
                if kind == 1 {
                    word_decoded(word, mode) == half(HalfwordDataTransferMode::StoreHalfword)
                } else {
                    word_decoded(word, mode) is None
                }
            } else if kind == 1 {
                word_decoded(word, mode) == half(HalfwordDataTransferMode::LoadUnsignedHalfword)
            } else if kind == 2 {
                word_decoded(word, mode) == half(HalfwordDataTransferMode::LoadSignedByte)
            } else {
                word_decoded(word, mode) == half(HalfwordDataTransferMode::LoadSignedHalfword)
            }
        }),
{
    lemma_word_digits(word);
}

/// How a word writes a transfer of a list of registers, which names at least one. A base
/// that is loaded itself is not written back. Where the bit of the unit 0x40_0000 is one,
/// a load with the program counter takes back the saved status, and any other transfer
/// takes the registers of the user mode.
pub proof fn words_of_block_transfers(word: u32, mode: CpuMode)
    requires
        digit(word, 0x200_0000, 8) == 4,
    ensures
        ({
            let bits = digit(word, 1, 0x1_0000) as u16;
            let load = one(word, 0x10_0000);
            let special = one(word, 0x40_0000);
            let back = special && load && bits.has_bit(15);
            let loads_base = load && bits.has_bit(digit(word, 0x1_0000, 16) as u16);
            if bits == 0 || (back && saved_status_of(mode) is None) {
                word_decoded(word, mode) is None
            } else {
                word_decoded(word, mode) == Some(
                    (
                        digit(word, 0x1000_0000, 16) as u8,
                        Instruction::BlockDataTransfer {
                            load,
                            registers: RegisterList {
                                bits,
                                bank: if special && !back { CpuMode::User } else { mode },
                            },
                            load_spsr: if back { saved_status_of(mode) } else { None },
                            index: Indexing {
                                write_back: one(word, 0x20_0000) && !loads_base,
                                ..written_address(word, mode)
                            },
                        },
                    ),
                )
            }
        }),
{
    lemma_word_digits(word);
}

/// How a word writes a jump: by a signed number of words, with or without the link
/// register, or to the address in a register; and how it calls the start-up program.
pub proof fn words_of_jumps(word: u32, mode: CpuMode)
    ensures
        ({
            let cond = digit(word, 0x1000_0000, 16) as u8;
            let group = digit(word, 0x200_0000, 8);
            let number = digit(word, 1, 0x100_0000);
            &&& group == 5 ==> word_decoded(word, mode) == Some(
                (
                    cond,
                    Instruction::Branch {
                        offset: (if number < 0x80_0000 {
                            4 * number
                        } else {
                            4 * (number - 0x100_0000)
                        }) as i32,
                        link_register: if one(word, 0x100_0000) {
                            Some(banked(mode, 14) as usize)
                        } else {
                            None
                        },
                    },
                ),
            )
            &&& digit(word, 0x10, 0x100_0000) == 0x12_fff1 ==> word_decoded(word, mode) == Some(
                (cond, Instruction::BranchAndExchange { register: place(word, mode, 1) }),
            )
            &&& group == 7 && one(word, 0x100_0000) ==> word_decoded(word, mode) == Some(
                (cond, Instruction::Interrupt),
            )
            &&& group == 7 && !one(word, 0x100_0000) ==> word_decoded(word, mode) is None
            &&& group == 6 ==> word_decoded(word, mode) is None
        }),
{
    lemma_word_digits(word);
}

/// How a word reads or writes a status register: the saved one of the mode where the bit
/// of the unit 0x40_0000 is one, and the current one otherwise. What is written are the
/// bytes whose bits are one, but in the user mode only the top one.
pub proof fn words_of_statuses(word: u32, mode: CpuMode)
    requires
        digit(word, 0x200_0000, 8) < 2,
        digit(word, 0x80_0000, 4) == 2,
        !one(word, 0x10_0000),
    ensures
        ({
            let cond = digit(word, 0x1000_0000, 16) as u8;
            let saved = one(word, 0x40_0000);
            let missing = saved && saved_status_of(mode) is None;
            let spsr = if saved { saved_status_of(mode) } else { None };
            let mask = (if one(word, 0x8_0000) { 0xff00_0000int } else { 0 }) + (if mode
                == CpuMode::User {
                0
            } else {
                (if one(word, 0x4_0000) { 0xff_0000int } else { 0 }) + (if one(word, 0x2_0000) {
                    0xff00int
                } else {
                    0
                }) + (if one(word, 0x1_0000) { 0xffint } else { 0 })
            });
            let written = |source: Offset|
                if missing {
                    None
                } else {
                    Some((cond, Instruction::StorePsr { spsr, source, mask: mask as u32 }))
                };
            &&& digit(word, 0x200_0000, 8) == 1 && one(word, 0x20_0000) && digit(word, 0x1000, 16)
                == 15 ==> word_decoded(word, mode) == written(written_constant(word))
            &&& digit(word, 0x200_0000, 8) == 0 && one(word, 0x20_0000) && digit(word, 0x10, 0x1000)
                == 0xf00 ==> word_decoded(word, mode) == written(written_register(word, mode))
            &&& digit(word, 0x200_0000, 8) == 0 && digit(word, 0x1_0000, 64) == 15 && digit(
                word,
                1,
                0x1000,
            ) == 0 ==> word_decoded(word, mode) == (if missing {
                None
            } else {
                Some((cond, Instruction::LoadPsr { spsr, target: place(word, mode, 0x1000) }))
            })
        }),
{
    lemma_word_digits(word);
    lemma_masks_join();
}

proof fn lemma_masks_join()
    ensures
        forall|control: u32, extension: u32, status: u32, flags: u32|
            (control == 0 || control == 0xff) && (extension == 0 || extension == 0xff00) && (status
                == 0 || status == 0xff_0000) && (flags == 0 || flags == 0xff00_0000)
                ==> #[trigger] (control | extension | status | flags) == control + extension
                + status + flags,
{
    assert(forall|control: u32, extension: u32, status: u32, flags: u32|
        (control == 0 || control == 0xff) && (extension == 0 || extension == 0xff00) && (status == 0
            || status == 0xff_0000) && (flags == 0 || flags == 0xff00_0000) ==> #[trigger] (control
            | extension | status | flags) == control + extension + status + flags) by (bit_vector);
}

/// The half word that is executed is the low half of its word where the program counter is
/// a multiple of four, and the high half where it is two more.
pub proof fn halves_are_executed_in_order(word: u32, pc: u32)
    ensures
        pc % 4 < 2 ==> addressed_half(word, pc) == word % 0x1_0000,
        pc % 4 >= 2 ==> addressed_half(word, pc) == word / 0x1_0000,
{
    lemma_half_groups(0, pc, word);
}

/// The place of the low register whose number stands at a unit of a half word.
pub open spec fn low_place(half: u32, mode: CpuMode, unit: u32) -> usize {
    banked(mode, digit(half, unit, 8) as int) as usize
}

proof fn lemma_half_digits(half: u32)
    requires
        half < 0x1_0000,
    ensures
        half >> 11 == digit(half, 0x800, 32),
        digit(half, 0x800, 32) < 32,
        (half >> 0) & 0b111 == digit(half, 1, 8),
        (half >> 3) & 0b111 == digit(half, 8, 8),
        (half >> 6) & 0b111 == digit(half, 0x40, 8),
        (half >> 8) & 0b111 == digit(half, 0x100, 8),
        digit(half, 1, 8) < 8,
        digit(half, 8, 8) < 8,
        digit(half, 0x100, 8) < 8,
        (half >> 11) & 0b11 == digit(half, 0x800, 4),
        digit(half, 0x800, 4) < 4,
        (half >> 6) & 0b11111 == digit(half, 0x40, 32),
        digit(half, 0x40, 32) < 32,
        (half >> 6) & 0xf == digit(half, 0x40, 16),
        digit(half, 0x40, 16) < 16,
        (half >> 8) & 0b11 == digit(half, 0x100, 4),
        (half >> 8) & 0xf == digit(half, 0x100, 16),
        digit(half, 0x100, 16) < 16,
        half & 0xff == digit(half, 1, 0x100),
        digit(half, 1, 0x100) < 0x100,
        half & 0x7f == digit(half, 1, 0x80),
        digit(half, 1, 0x80) < 0x80,
        half & 0x7ff == digit(half, 1, 0x800),
        digit(half, 1, 0x800) < 0x800,
        half.has_bit(6) == one(half, 0x40),
        half.has_bit(7) == one(half, 0x80),
        half.has_bit(8) == one(half, 0x100),
        half.has_bit(9) == one(half, 0x200),
        half.has_bit(10) == one(half, 0x400),
        half.has_bit(11) == one(half, 0x800),
        half.has_bit(12) == one(half, 0x1000),
        half.has_bit(7) == (digit(half, 1, 0x100) >= 0x80),
        half.has_bit(10) == (digit(half, 1, 0x800) >= 0x400),
        ((half & 0xff) | 0x8000) as u16 == digit(half, 1, 0x100) + 0x8000,
        ((half & 0xff) | 0x4000) as u16 == digit(half, 1, 0x100) + 0x4000,
        ((half & 0xff) | 0) as u16 == digit(half, 1, 0x100),
{
    reveal(digit);
    assert(half >> 11 == half / 0x800 % 32 && (half >> 0) & 0b111 == half / 1 % 8 && (half >> 3)
        & 0b111 == half / 8 % 8 && (half >> 6) & 0b111 == half / 0x40 % 8 && (half >> 8) & 0b111
        == half / 0x100 % 8 && (half >> 11) & 0b11 == half / 0x800 % 4 && (half >> 6) & 0b11111
        == half / 0x40 % 32 && (half >> 6) & 0xf == half / 0x40 % 16 && (half >> 8) & 0b11 == half
        / 0x100 % 4 && (half >> 8) & 0xf == half / 0x100 % 16 && half & 0xff == half / 1 % 0x100
        && half & 0x7f == half / 1 % 0x80 && half & 0x7ff == half / 1 % 0x800 && ((half & (1u32
        << 6)) != 0) == (half / 0x40 % 2 == 1) && ((half & (1u32 << 7)) != 0) == (half / 0x80 % 2
        == 1) && ((half & (1u32 << 8)) != 0) == (half / 0x100 % 2 == 1) && ((half & (1u32 << 9))
        != 0) == (half / 0x200 % 2 == 1) && ((half & (1u32 << 10)) != 0) == (half / 0x400 % 2 == 1)
        && ((half & (1u32 << 11)) != 0) == (half / 0x800 % 2 == 1) && ((half & (1u32 << 12)) != 0)
        == (half / 0x1000 % 2 == 1) && ((half & (1u32 << 7)) != 0) == (half / 1 % 0x100 >= 0x80)
        && ((half & (1u32 << 10)) != 0) == (half / 1 % 0x800 >= 0x400) && ((half & 0xff) | 0x8000)
        == (half / 1 % 0x100) + 0x8000 && ((half & 0xff) | 0x4000) == (half / 1 % 0x100) + 0x4000
        && ((half & 0xff) | 0) == half / 1 % 0x100) by (bit_vector)
        requires
            half < 0x1_0000,
    ;
}

/// An operation in a half word, with the flags or without.
pub open spec fn half_operation(
    flags: bool,
    opcode: DataProcessingOpcode,
    operand1: usize,
    operand2: Offset,
    target: usize,
) -> Option<(u8, Instruction)> {
    Some(
        (
            14u8,
            Instruction::DataProcessing {
                cpsr: if flags {
                    DataProcessingCpsr::SetFlags
                } else {
                    DataProcessingCpsr::Unchanged
                },
                opcode,
                operand1,
                operand2,
                target,
            },
        ),
    )
}

/// A constant that is written as it is.
pub open spec fn plain(value: int) -> Offset {
    Offset::Immediate { value: value as u32, carry: None }
}

/// How a half word writes an operation on low registers: shifts by a number, sums and
/// differences with a register or a number, and the sixteen operations, of which four are
/// shifts by a register, one the negation and one the product.
pub proof fn halves_of_low_operations(half: u32, mode: CpuMode, pc: u32)
    requires
        half < 0x1_0000,
    ensures
        ({
            let group = digit(half, 0x800, 32);
            let low = low_place(half, mode, 1);
            let middle = low_place(half, mode, 8);
            let third = low_place(half, mode, 0x40);
            let target = low_place(half, mode, 0x100);
            let number = digit(half, 0x40, 32);
            let byte = plain(digit(half, 1, 0x100) as int);
            let kind = digit(half, 0x40, 16);
            let decoded = half_decoded(half, mode, pc);
            let shifted = |register: usize, shift_type: u8, shift: OffsetShift|
                Offset::ShiftedRegister { register, shift_type, shift };
            let sum = |opcode: DataProcessingOpcode, operand: Offset|
                half_operation(true, opcode, middle, operand, low);
            let turned = |shift_type: u8|
                half_operation(
                    true,
                    DataProcessingOpcode::Move,
                    low,
                    shifted(low, shift_type, OffsetShift::Register(middle)),
                    low,
                );
            &&& group < 3 ==> decoded == sum(
                DataProcessingOpcode::Move,
                shifted(
                    middle,
                    group as u8,
                    OffsetShift::Immediate(
                        if number == 0 && group != 0 {
                            32
                        } else {
                            number
                        },
                    ),
                ),
            )
            &&& group == 3 ==> decoded == sum(
                if one(half, 0x200) {
                    DataProcessingOpcode::Subtract
                } else {
                    DataProcessingOpcode::Add
                },
                if one(half, 0x400) {
                    plain(digit(half, 0x40, 8) as int)
                } else {
                    Offset::Register(third)
                },
            )
            &&& group == 4 ==> decoded == half_operation(
                true,
                DataProcessingOpcode::Move,
                target,
                byte,
                target,
            )
            &&& group == 5 ==> decoded == half_operation(
                true,
                DataProcessingOpcode::TestSubtract,
                target,
                byte,
                target,
            )
            &&& group == 6 ==> decoded == half_operation(
                true,
                DataProcessingOpcode::Add,
                target,
                byte,
                target,
            )
            &&& group == 7 ==> decoded == half_operation(
                true,
                DataProcessingOpcode::Subtract,
                target,
                byte,
                target,
            )
            &&& group == 8 && !one(half, 0x400) ==> if kind == 2 {
                decoded == turned(0)
            } else if kind == 3 {
                decoded == turned(1)
            } else if kind == 4 {
                decoded == turned(2)
            } else if kind == 7 {
                decoded == turned(3)
            } else if kind == 9 {
                decoded == sum(DataProcessingOpcode::ReverseSubtract, plain(0))
            } else if kind == 13 {
                decoded == Some(
                    (
                        14u8,
                        Instruction::Multiply {
                            operand1: low,
                            operand2: middle,
                            accumulate: None,
                            target: low,
                            set_flags: true,
                        },
                    ),
                )
            } else {
                decoded == half_operation(
                    true,
                    operation(kind),
                    low,
                    Offset::Register(middle),
                    low,
                )
            }
        }),
{
    lemma_half_digits(half);
    lemma_half_groups(half, pc, 0);
}

proof fn lemma_half_groups(half: u32, pc: u32, word: u32)
    ensures
        half < 0x1_0000 && digit(half, 0x800, 32) < 4 ==> digit(half, 0x800, 4) == digit(
            half,
            0x800,
            32,
        ),
        half < 0x1_0000 && 4 <= digit(half, 0x800, 32) < 8 ==> digit(half, 0x800, 4) == digit(
            half,
            0x800,
            32,
        ) - 4,
        one(half, 0x800) == (digit(half, 0x800, 32) % 2 == 1),
        one(half, 0x1000) == (digit(half, 0x800, 32) / 2 % 2 == 1),
        digit(half, 0x200, 8) == 4 * digit(half, 0x800, 2) + 2 * digit(half, 0x400, 2) + digit(
            half,
            0x200,
            2,
        ),
        digit(half, 0x100, 16) == 8 * digit(half, 0x800, 2) + 4 * digit(half, 0x400, 2) + 2 * digit(
            half,
            0x200,
            2,
        ) + digit(half, 0x100, 2),
        digit(half, 0x800, 2) < 2,
        digit(half, 0x400, 2) < 2,
        digit(half, 0x200, 2) < 2,
        digit(half, 0x100, 2) < 2,
        pc & 2 == pc % 4 / 2 * 2,
        word & 0xffff == word % 0x1_0000,
        word >> 16 == word / 0x1_0000,
{
    reveal(digit);
    assert((half / 0x800 % 32 < 4 ==> half / 0x800 % 4 == half / 0x800 % 32) && (half / 0x800 % 32
        >= 4 && half / 0x800 % 32 < 8 ==> half / 0x800 % 4 == half / 0x800 % 32 - 4) && half / 0x800
        % 2 == half / 0x800 % 32 % 2 && half / 0x1000 % 2 == half / 0x800 % 32 / 2 % 2 && half / 0x200
        % 8 == 4 * (half / 0x800 % 2) + 2 * (half / 0x400 % 2) + half / 0x200 % 2 && half / 0x100 % 16
        == 8 * (half / 0x800 % 2) + 4 * (half / 0x400 % 2) + 2 * (half / 0x200 % 2) + half / 0x100 % 2
        && pc & 2 == pc % 4 / 2 * 2 && word & 0xffff == word % 0x1_0000 && word >> 16 == word
        / 0x1_0000) by (bit_vector);
}

/// How a half word writes an operation on any two registers, which leaves the flags alone
/// unless it compares, and a jump to the address in any register.
pub proof fn halves_of_high_operations(half: u32, mode: CpuMode, pc: u32)
    requires
        half < 0x1_0000,
        digit(half, 0x800, 32) == 8,
        one(half, 0x400),
    ensures
        ({
            let source = banked(
                mode,
                digit(half, 8, 8) + (if one(half, 0x40) { 8int } else { 0 }),
            ) as usize;
            let target = banked(
                mode,
                digit(half, 1, 8) + (if one(half, 0x80) { 8int } else { 0 }),
            ) as usize;
            let kind = digit(half, 0x100, 4);
            let done = |flags: bool, opcode: DataProcessingOpcode|
                half_operation(flags, opcode, target, Offset::Register(source), target);
            &&& kind == 0 ==> half_decoded(half, mode, pc) == done(false, DataProcessingOpcode::Add)
            &&& kind == 1 ==> half_decoded(half, mode, pc) == done(
                true,
                DataProcessingOpcode::TestSubtract,
            )
            &&& kind == 2 ==> half_decoded(half, mode, pc) == done(false, DataProcessingOpcode::Move)
            &&& kind == 3 ==> half_decoded(half, mode, pc) == Some(
                (14u8, Instruction::BranchAndExchange { register: source }),
            )
        }),
{
    lemma_half_digits(half);
}

/// An address in a half word: a base to which an offset is added.
pub open spec fn half_address(base: usize) -> Indexing {
    Indexing { base, modify_first: true, subtract: false, write_back: false }
}

/// How a half word writes a transfer: near the program counter, at a register and another
/// one, at a register and a number of items, and on the stack. Near the program counter
/// the offset counts from the multiple of four before it.
pub proof fn halves_of_transfers(half: u32, mode: CpuMode, pc: u32)
    requires
        half < 0x1_0000,
    ensures
        ({
            let group = digit(half, 0x800, 32);
            let kind = digit(half, 0x200, 8);
            let number = digit(half, 0x40, 32);
            let byte = digit(half, 1, 0x100);
            let decoded = half_decoded(half, mode, pc);
            let low = low_place(half, mode, 1);
            let base = low_place(half, mode, 8);
            let target = low_place(half, mode, 0x100);
            let whole = |load: bool, bytes: bool, base: usize, target: usize, offset: Offset|
                Some(
                    (
                        14u8,
                        Instruction::SingleDataTransfer {
                            load,
                            index: half_address(base),
                            target,
                            offset,
                            byte: bytes,
                        },
                    ),
                );
            let part = |width: HalfwordDataTransferMode, offset: Offset|
                Some(
                    (
                        14u8,
                        Instruction::HalfwordDataTransfer {
                            mode: width,
                            index: half_address(base),
                            target: low,
                            offset,
                        },
                    ),
                );
            let other = Offset::Register(low_place(half, mode, 0x40));
            &&& group == 9 ==> decoded == whole(
                true,
                false,
                15,
                target,
                plain((4 * byte - pc % 4 / 2 * 2) % 0x1_0000_0000),
            )
            &&& 10 <= group < 12 ==> if kind == 0 {
                decoded == whole(false, false, base, low, other)
            } else if kind == 1 {
                decoded == part(HalfwordDataTransferMode::StoreHalfword, other)
            } else if kind == 2 {
                decoded == whole(false, true, base, low, other)
            } else if kind == 3 {
                decoded == part(HalfwordDataTransferMode::LoadSignedByte, other)
            } else if kind == 4 {
                decoded == whole(true, false, base, low, other)
            } else if kind == 5 {
                decoded == part(HalfwordDataTransferMode::LoadUnsignedHalfword, other)
            } else if kind == 6 {
                decoded == whole(true, true, base, low, other)
            } else {
                decoded == part(HalfwordDataTransferMode::LoadSignedHalfword, other)
            }
            &&& group == 12 ==> decoded == whole(false, false, base, low, plain(4 * number))
            &&& group == 13 ==> decoded == whole(true, false, base, low, plain(4 * number))
            &&& group == 14 ==> decoded == whole(false, true, base, low, plain(number as int))
            &&& group == 15 ==> decoded == whole(true, true, base, low, plain(number as int))
            &&& group == 16 ==> decoded == part(
                HalfwordDataTransferMode::StoreHalfword,
                plain(2 * number),
            )
            &&& group == 17 ==> decoded == part(
                HalfwordDataTransferMode::LoadUnsignedHalfword,
                plain(2 * number),
            )
            &&& group == 18 ==> decoded == whole(
                false,
                false,
                banked(mode, 13) as usize,
                target,
                plain(4 * byte),
            )
            &&& group == 19 ==> decoded == whole(
                true,
                false,
                banked(mode, 13) as usize,
                target,
                plain(4 * byte),
            )
        }),
{
    lemma_half_digits(half);
    lemma_half_groups(half, pc, 0);
}

/// How a half word writes addresses near the program counter and on the stack, moves of
/// the stack pointer, and transfers of registers. A list that is stored on the stack may
/// hold the link register, and one that is loaded the program counter.
pub proof fn halves_of_stack_and_blocks(half: u32, mode: CpuMode, pc: u32)
    requires
        half < 0x1_0000,
    ensures
        ({
            let group = digit(half, 0x800, 32);
            let stack = banked(mode, 13) as usize;
            let target = low_place(half, mode, 0x100);
            let byte = digit(half, 1, 0x100);
            let decoded = half_decoded(half, mode, pc);
            let kind = digit(half, 0x100, 16);
            let block = |load: bool, bits: int, index: Indexing|
                if bits == 0 {
                    None
                } else {
                    Some(
                        (
                            14u8,
                            Instruction::BlockDataTransfer {
                                load,
                                registers: RegisterList { bits: bits as u16, bank: mode },
                                load_spsr: None,
                                index,
                            },
                        ),
                    )
                };
            &&& group == 20 ==> decoded == half_operation(
                false,
                DataProcessingOpcode::Add,
                15,
                plain((4 * byte - pc % 4 / 2 * 2) % 0x1_0000_0000),
                target,
            )
            &&& group == 21 ==> decoded == half_operation(
                false,
                DataProcessingOpcode::Add,
                stack,
                plain(4 * byte),
                target,
            )
            &&& 22 <= group < 24 ==> if kind == 0 {
                decoded == half_operation(
                    false,
                    if one(half, 0x80) {
                        DataProcessingOpcode::Subtract
                    } else {
                        DataProcessingOpcode::Add
                    },
                    stack,
                    plain(4 * digit(half, 1, 0x80)),
                    stack,
                )
            } else if kind == 4 || kind == 5 {
                decoded == block(
                    false,
                    byte + (kind - 4) * 0x4000,
                    Indexing { base: stack, modify_first: true, subtract: true, write_back: true },
                )
            } else if kind == 12 || kind == 13 {
                decoded == block(
                    true,
                    byte + (kind - 12) * 0x8000,
                    Indexing { base: stack, modify_first: false, subtract: false, write_back: true },
                )
            } else {
                decoded is None
            }
            &&& 24 <= group < 26 ==> decoded == block(
                group == 25,
                byte as int,
                Indexing {
                    base: target,
                    modify_first: false,
                    subtract: false,
                    write_back: !(group == 25 && (byte as u16).has_bit(
                        digit(half, 0x100, 8) as u16,
                    )),
                },
            )
        }),
{
    lemma_half_digits(half);
    lemma_half_groups(half, pc, 0);
}

/// How a half word writes a branch, by a signed number of half words, and the two halves
/// of a call. The first adds a signed number of pages of 0x1000 bytes to the program
/// counter, and the second a number of half words to that.
pub proof fn halves_of_branches(half: u32, mode: CpuMode, pc: u32)
    requires
        half < 0x1_0000,
    ensures
        ({
            let group = digit(half, 0x800, 32);
            let cond = digit(half, 0x100, 16);
            let short = digit(half, 1, 0x100);
            let long = digit(half, 1, 0x800);
            let link = banked(mode, 14) as usize;
            let decoded = half_decoded(half, mode, pc);
            &&& 26 <= group < 28 && cond < 14 ==> decoded == Some(
                (
                    cond as u8,
                    Instruction::Branch {
                        offset: (2 * (if short < 0x80 { short as int } else { short - 0x100 })) as i32,
                        link_register: None,
                    },
                ),
            )
            &&& 26 <= group < 28 && cond == 14 ==> decoded is None
            &&& 26 <= group < 28 && cond == 15 ==> decoded == Some((14u8, Instruction::Interrupt))
            &&& group == 28 ==> decoded == Some(
                (
                    14u8,
                    Instruction::Branch {
                        offset: (2 * (if long < 0x400 { long as int } else { long - 0x800 })) as i32,
                        link_register: None,
                    },
                ),
            )
            &&& group == 29 ==> decoded is None
            &&& group == 30 ==> decoded == half_operation(
                false,
                DataProcessingOpcode::Add,
                15,
                plain((0x1000 * (if long < 0x400 { long as int } else { long - 0x800 }))
                    % 0x1_0000_0000),
                link,
            )
            &&& group == 31 ==> decoded == Some(
                (
                    14u8,
                    Instruction::Branch { offset: (2 * long) as i32, link_register: Some(link) },
                ),
            )
        }),
{
    lemma_half_digits(half);
}

} // verus!
