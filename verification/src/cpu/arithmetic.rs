//! The barrel shifter and the adder.

use crate::bits::Bits;
use crate::cpu::instruction::DataProcessingOpcode;
use vstd::prelude::*;

verus! {

/// `value` shifted to the left by any number of bits.
pub open spec fn shifted_left(value: u32, distance: u32) -> u32 {
    if distance < 32 { value << distance } else { 0 }
}

/// `value` shifted to the right by any number of bits.
pub open spec fn shifted_right(value: u32, distance: u32) -> u32 {
    if distance < 32 { value >> distance } else { 0 }
}

/// `value` shifted to the right by any number of bits, with the top bit
/// repeated.
pub open spec fn shifted_right_signed(value: u32, distance: u32) -> u32 {
    ((value as i32) >> (if distance < 32 { distance } else { 31 })) as u32
}

/// `value` rotated to the right.
pub open spec fn rotated_right(value: u32, distance: u32) -> u32 {
    if distance % 32 == 0 {
        value
    } else {
        (value >> (distance % 32)) | (value << ((32 - distance % 32) as u32))
    }
}

/// Shifts to the left by any number of bits.
pub fn shift_left(value: u32, distance: u32) -> (r: u32)
    ensures
        r == shifted_left(value, distance),
{
    if distance < 32 { value << distance } else { 0 }
}

/// Shifts to the right by any number of bits.
pub fn shift_right(value: u32, distance: u32) -> (r: u32)
    ensures
        r == shifted_right(value, distance),
{
    if distance < 32 { value >> distance } else { 0 }
}

/// Shifts to the right by any number of bits, repeating the top bit.
pub fn shift_right_signed(value: u32, distance: u32) -> (r: u32)
    ensures
        r == shifted_right_signed(value, distance),
{
    let distance: u32 = if distance < 32 { distance } else { 31 };
    ((value as i32) >> distance) as u32
}

/// Rotates to the right.
pub fn rotate_right(value: u32, distance: u32) -> (r: u32)
    ensures
        r == rotated_right(value, distance),
{
    let distance: u32 = distance % 32;
    if distance == 0 {
        value
    } else {
        (value >> distance) | (value << (32 - distance))
    }
}

/// What the barrel shifter gives for a shift of this type: the shifted
/// operand, and the last bit that was shifted out where there is one. Rotating
/// by no bit stands for rotating by one bit through the carry.
pub open spec fn barrel_shifted(operand: u32, shift_type: u8, distance: u32, carry: bool) -> (
    u32,
    Option<bool>,
) {
    if shift_type == 0 {
        if distance == 0 {
            (operand, None)
        } else {
            (
                shifted_left(operand, distance),
                Some(operand & shifted_left(1, 32u32.wrapping_sub(distance)) != 0),
            )
        }
    } else if shift_type == 1 {
        (
            shifted_right(operand, distance),
            Some(operand & shifted_left(1, (distance - 1) as u32) != 0),
        )
    } else if shift_type == 2 {
        (
            shifted_right_signed(operand, distance),
            Some(shifted_right_signed(operand, (distance - 1) as u32) & 1 != 0),
        )
    } else if distance == 0 {
        (operand >> 1 | ((carry as u32) << 31), Some(operand & 1 != 0))
    } else {
        (
            rotated_right(operand, distance),
            Some(operand & shifted_left(1, ((distance - 1) % 32) as u32) != 0),
        )
    }
}

/// Shifts an operand in one of the four ways.
pub fn barrel_shift(operand: u32, shift_type: u8, distance: u32, carry: bool) -> (r: (
    u32,
    Option<bool>,
))
    requires
        distance == 0 ==> shift_type == 0 || shift_type >= 3,
    ensures
        r == barrel_shifted(operand, shift_type, distance, carry),
{
    match shift_type {
        0b00 => if distance == 0 {
            (operand, None)
        } else {
            (
                shift_left(operand, distance),
                Some(operand & shift_left(1, 32u32.wrapping_sub(distance)) != 0),
            )
        },
        0b01 => (
            shift_right(operand, distance),
            Some(operand & shift_left(1, distance - 1) != 0),
        ),
        0b10 => (
            shift_right_signed(operand, distance),
            Some(shift_right_signed(operand, distance - 1) & 1 != 0),
        ),
        _ => if distance == 0 {
            let high: u32 = if carry { 1 } else { 0 };
            (operand >> 1 | (high << 31), Some(operand & 1 != 0))
        } else {
            (
                rotate_right(operand, distance),
                Some(operand & shift_left(1, (distance - 1) % 32) != 0),
            )
        },
    }
}

/// The outcome of an arithmetic or logical operation.
pub struct Computed {
    /// The 32-bit result.
    pub value: u32,
    /// The carry and the signed overflow, which only additions give.
    pub status: Option<(bool, bool)>,
}

/// The 32-bit sum with a carry in, the carry out, and whether the sum
/// overflows as one of signed numbers: the addends have the same sign and the
/// sum has another.
pub open spec fn sum_of(a: u32, b: u32, carry: bool) -> Computed {
    let sum = a + b + (if carry { 1int } else { 0 });
    let value = if sum > u32::MAX { (sum - 0x1_0000_0000) as u32 } else { sum as u32 };
    Computed {
        value,
        status: Some(
            (sum > u32::MAX, a.has_bit(31) == b.has_bit(31) && a.has_bit(31) != value.has_bit(31)),
        ),
    }
}

/// What an operation computes. A subtraction adds the complement, and a
/// borrow is a carry that is clear.
pub open spec fn computed(
    opcode: DataProcessingOpcode,
    input: u32,
    operand: u32,
    carry: bool,
) -> Computed {
    match opcode {
        DataProcessingOpcode::And => Computed { value: input & operand, status: None },
        DataProcessingOpcode::TestAnd => Computed { value: input & operand, status: None },
        DataProcessingOpcode::Xor => Computed { value: input ^ operand, status: None },
        DataProcessingOpcode::TestXor => Computed { value: input ^ operand, status: None },
        DataProcessingOpcode::Or => Computed { value: input | operand, status: None },
        DataProcessingOpcode::Move => Computed { value: operand, status: None },
        DataProcessingOpcode::BitClear => Computed { value: input & !operand, status: None },
        DataProcessingOpcode::MoveNot => Computed { value: !operand, status: None },
        DataProcessingOpcode::Add => sum_of(input, operand, false),
        DataProcessingOpcode::TestAdd => sum_of(input, operand, false),
        DataProcessingOpcode::ReverseSubtract => sum_of(operand, !input, true),
        DataProcessingOpcode::Subtract => sum_of(input, !operand, true),
        DataProcessingOpcode::TestSubtract => sum_of(input, !operand, true),
        DataProcessingOpcode::AddWithCarry => sum_of(input, operand, carry),
        DataProcessingOpcode::SubtractWithCarry => sum_of(input, !operand, carry),
        DataProcessingOpcode::ReverseSubtractWithCarry => sum_of(operand, !input, carry),
    }
}

/// Whether an operation keeps its result, not only the flags.
pub open spec fn keeps_result(opcode: DataProcessingOpcode) -> bool {
    opcode != DataProcessingOpcode::TestAdd && opcode != DataProcessingOpcode::TestAnd && opcode
        != DataProcessingOpcode::TestSubtract && opcode != DataProcessingOpcode::TestXor
}

/// Adds two words and a carry.
pub fn add_with_carry(a: u32, b: u32, carry: bool) -> (r: Computed)
    ensures
        r == sum_of(a, b, carry),
{
    let sum: u64 = a as u64 + b as u64 + (if carry { 1u64 } else { 0u64 });
    let carried: bool = sum > 0xffff_ffff;
    let value: u32 = if carried { (sum - 0x1_0000_0000) as u32 } else { sum as u32 };
    Computed {
        value,
        status: Some(
            (carried, a.bit(31) == b.bit(31) && a.bit(31) != value.bit(31)),
        ),
    }
}

/// Performs an operation.
pub fn compute(opcode: DataProcessingOpcode, input: u32, operand: u32, carry: bool) -> (r: Computed)
    ensures
        r == computed(opcode, input, operand, carry),
{
    match opcode {
        DataProcessingOpcode::And | DataProcessingOpcode::TestAnd => Computed {
            value: input & operand,
            status: None,
        },
        DataProcessingOpcode::Xor | DataProcessingOpcode::TestXor => Computed {
            value: input ^ operand,
            status: None,
        },
        DataProcessingOpcode::Or => Computed { value: input | operand, status: None },
        DataProcessingOpcode::Move => Computed { value: operand, status: None },
        DataProcessingOpcode::BitClear => Computed { value: input & !operand, status: None },
        DataProcessingOpcode::MoveNot => Computed { value: !operand, status: None },
        DataProcessingOpcode::Add | DataProcessingOpcode::TestAdd => add_with_carry(
            input,
            operand,
            false,
        ),
        DataProcessingOpcode::ReverseSubtract => add_with_carry(operand, !input, true),
        DataProcessingOpcode::Subtract | DataProcessingOpcode::TestSubtract => add_with_carry(
            input,
            !operand,
            true,
        ),
        DataProcessingOpcode::AddWithCarry => add_with_carry(input, operand, carry),
        DataProcessingOpcode::SubtractWithCarry => add_with_carry(input, !operand, carry),
        DataProcessingOpcode::ReverseSubtractWithCarry => add_with_carry(operand, !input, carry),
    }
}

/// A subtraction gives the difference of the words, carries exactly where it
/// does not borrow, and overflows exactly where the difference of the signed
/// numbers does not fit.
pub proof fn subtraction_subtracts(input: u32, operand: u32)
    ensures
        computed(DataProcessingOpcode::Subtract, input, operand, false).value == input.wrapping_sub(
            operand,
        ),
        computed(DataProcessingOpcode::Subtract, input, operand, false).status == Some(
            (
                input >= operand,
                !(i32::MIN <= (input as i32) - (operand as i32) <= i32::MAX),
            ),
        ),
{
    assert(!operand == 0xffff_ffff - operand) by (bit_vector);
    sum_overflow(input, !operand, true);
    lemma_sign(operand);
    lemma_sign(!operand);
}

/// The top bit is the sign.
proof fn lemma_sign(word: u32)
    ensures
        word.has_bit(31) == (word >= 0x8000_0000),
        word as i32 == if word >= 0x8000_0000 { word - 0x1_0000_0000 } else { word as int },
{
    assert((word & (1u32 << 31) != 0) == (word >= 0x8000_0000) && word as i32 == if word
        >= 0x8000_0000 {
        word - 0x1_0000_0000
    } else {
        word as int
    }) by (bit_vector);
}

/// The overflow of a sum tells whether the sum of the signed numbers does not
/// fit in 32 bits.
pub proof fn sum_overflow(a: u32, b: u32, carry: bool)
    ensures
        (sum_of(a, b, carry).status->0).1 == !(i32::MIN <= (a as i32) + (b as i32) + (if carry {
            1int
        } else {
            0
        }) <= i32::MAX),
{
    let value = sum_of(a, b, carry).value;
    lemma_sign(a);
    lemma_sign(b);
    lemma_sign(value);
}

/// A test operation computes what the operation does whose flags it sets.
pub proof fn tests_compute_the_same(input: u32, operand: u32, carry: bool)
    ensures
        computed(DataProcessingOpcode::TestAnd, input, operand, carry) == computed(
            DataProcessingOpcode::And,
            input,
            operand,
            carry,
        ),
        computed(DataProcessingOpcode::TestXor, input, operand, carry) == computed(
            DataProcessingOpcode::Xor,
            input,
            operand,
            carry,
        ),
        computed(DataProcessingOpcode::TestSubtract, input, operand, carry) == computed(
            DataProcessingOpcode::Subtract,
            input,
            operand,
            carry,
        ),
        computed(DataProcessingOpcode::TestAdd, input, operand, carry) == computed(
            DataProcessingOpcode::Add,
            input,
            operand,
            carry,
        ),
{
}

/// Rotating on by what is left to a full turn gives the operand back.
pub proof fn rotation_is_undone(value: u32, distance: u32)
    requires
        distance <= 32,
    ensures
        rotated_right(rotated_right(value, distance), (32 - distance) as u32) == value,
{
    if 0 < distance < 32 {
        let rest = (32 - distance) as u32;
        assert(((value >> distance | value << rest) >> rest) | ((value >> distance | value << rest)
            << distance) == value) by (bit_vector)
            requires
                0 < distance < 32,
                rest == 32 - distance,
        ;
    }
}

/// The carry of a shift by 1 to 32 bits is the last bit that was shifted out.
pub proof fn shift_carry_is_last_bit_out(operand: u32, distance: u32, carry: bool)
    requires
        1 <= distance <= 32,
    ensures
        barrel_shifted(operand, 0, distance, carry).1 == Some(
            operand.has_bit((32 - distance) as u32),
        ),
        barrel_shifted(operand, 1, distance, carry).1 == Some(
            operand.has_bit((distance - 1) as u32),
        ),
        barrel_shifted(operand, 2, distance, carry).1 == Some(
            operand.has_bit((distance - 1) as u32),
        ),
        barrel_shifted(operand, 3, distance, carry).1 == Some(
            operand.has_bit((distance - 1) as u32),
        ),
{
    let last = (distance - 1) as u32;
    assert(((((operand as i32) >> last) as u32) & 1 != 0) == (operand & (1u32 << last) != 0))
        by (bit_vector)
        requires
            last < 32,
    ;
}

} // verus!
