//! What the shifter, the adder and the conditions mean as operations on numbers.

use crate::bits::{lemma_digits_u8, set_bit_is_local_u32, Bits};
use crate::cpu::arithmetic::{barrel_shifted, computed, rotated_right, sum_of};
use crate::cpu::flags;
use crate::cpu::instruction::{DataProcessingCpsr, DataProcessingOpcode, Instruction, Offset};
use crate::cpu::model::{completed, CpuState, Machine};
use crate::memory::MemoryBus;
use vstd::arithmetic::power2::pow2;
use vstd::prelude::*;

verus! {

/// A word taken as a signed number.
pub open spec fn signed(word: u32) -> int {
    if word < 0x8000_0000 { word as int } else { word - 0x1_0000_0000 }
}

/// A number modulo the range of a word.
pub open spec fn wrapped(number: int) -> int {
    number % 0x1_0000_0000
}

/// Whether a number can be held by a signed word.
pub open spec fn fits_signed(number: int) -> bool {
    -0x8000_0000 <= number < 0x8000_0000
}

/// How shifted and combined words look as sums of digits and bit by bit.
proof fn lemma_words(a: u32, b: u32, distance: u32, bit: u32, source: u32)
    requires
        distance < 32,
        bit < 32,
        source == (bit + distance) % 32,
    ensures
        ((a as u64) << (distance as u64)) % 0x1_0000_0000 == a << distance,
        ((a as i32) >> distance) as u32 == if a >= 0x8000_0000 {
            !((!a) >> distance)
        } else {
            a >> distance
        },
        !a == 0xffff_ffff - a,
        a as i32 == signed(a),
        distance > 0 ==> rotated_right(a, distance).has_bit(bit) == a.has_bit(source),
        (a & b).has_bit(bit) == (a.has_bit(bit) && b.has_bit(bit)),
        (a | b).has_bit(bit) == (a.has_bit(bit) || b.has_bit(bit)),
        (a ^ b).has_bit(bit) == (a.has_bit(bit) != b.has_bit(bit)),
        (!a).has_bit(bit) == !a.has_bit(bit),
        a.has_bit(31) == (a >= 0x8000_0000),
        (a >> 1 | 1u32 << 31).has_bit(bit) == (bit == 31 || a.has_bit(((bit + 1) % 32) as u32)),
        (a >> 1 | 0u32 << 31).has_bit(bit) == (bit < 31 && a.has_bit(((bit + 1) % 32) as u32)),
        a & 1 != 0 == a.has_bit(0),
{
    let rest = ((32 - distance) % 32) as u32;
    let next = ((bit + 1) % 32) as u32;
    assert(((a as u64) << (distance as u64)) % 0x1_0000_0000u64 == (a << distance) as u64 && ((a as i32)
        >> distance) as u32 == (if a >= 0x8000_0000 {
        !((!a) >> distance)
    } else {
        a >> distance
    }) && !a == 0xffff_ffff - a && a as i32 == (if a < 0x8000_0000 {
        a as int
    } else {
        a - 0x1_0000_0000
    }) && (distance > 0 ==> ((a >> distance | a << rest) & (1u32 << bit) != 0) == (a & (1u32
        << source) != 0)) && ((a & b) & (1u32 << bit) != 0) == (a & (1u32 << bit) != 0 && b & (1u32
        << bit) != 0) && ((a | b) & (1u32 << bit) != 0) == (a & (1u32 << bit) != 0 || b & (1u32
        << bit) != 0) && ((a ^ b) & (1u32 << bit) != 0) == ((a & (1u32 << bit) != 0) != (b & (1u32
        << bit) != 0)) && ((!a) & (1u32 << bit) != 0) == (a & (1u32 << bit) == 0) && (a & (1u32
        << 31) != 0) == (a >= 0x8000_0000) && ((a >> 1 | 1u32 << 31) & (1u32 << bit) != 0) == (bit
        == 31 || a & (1u32 << next) != 0) && ((a >> 1 | 0u32 << 31) & (1u32 << bit) != 0) == (bit
        < 31 && a & (1u32 << next) != 0) && (a & 1 != 0) == (a & (1u32 << 0) != 0)) by (bit_vector)
        requires
            distance < 32,
            bit < 32,
            source == bit + distance || (source + 32 == bit + distance),
            source < 32,
            distance > 0 ==> rest == 32 - distance,
            next == bit + 1 || (bit == 31 && next == 0),
            next < 32,
    ;
}

proof fn lemma_large_power(distance: nat)
    requires
        distance >= 32,
    ensures
        pow2(distance) >= 0x1_0000_0000,
        pow2(distance) % 0x1_0000_0000 == 0,
{
    vstd::arithmetic::power2::lemma2_to64();
    vstd::arithmetic::power2::lemma2_to64_rest();
    let rest = (distance - 32) as nat;
    vstd::arithmetic::power2::lemma_pow2_adds(32, rest);
    vstd::arithmetic::power2::lemma_pow2_pos(rest);
    vstd::arithmetic::div_mod::lemma_mod_multiples_basic(pow2(rest) as int, 0x1_0000_0000);
    assert(pow2(32) * pow2(rest) >= pow2(32)) by (nonlinear_arith)
        requires
            pow2(rest) >= 1,
            pow2(32) >= 1,
    ;
}

/// A negative number divided by a power of two, rounded down, is one less than
/// the negated quotient of its complement.
proof fn lemma_floor(complement: int, power: int)
    requires
        complement >= 0,
        power > 0,
    ensures
        (-1 - complement) / power == -1 - complement / power,
{
    let quotient = complement / power;
    let rest = complement % power;
    vstd::arithmetic::div_mod::lemma_fundamental_div_mod(complement, power);
    vstd::arithmetic::div_mod::lemma_mod_bound(complement, power);
    assert(-1 - complement == (-1 - quotient) * power + (power - 1 - rest)) by (nonlinear_arith)
        requires
            complement == power * quotient + rest,
    ;
    vstd::arithmetic::div_mod::lemma_fundamental_div_mod_converse(
        -1 - complement,
        power,
        -1 - quotient,
        power - 1 - rest,
    );
}

/// A shift to the left multiplies by a power of two, modulo the range of a word;
/// a shift to the right divides by it and rounds down, the logical one an
/// unsigned and the arithmetic one a signed number. This holds of every distance,
/// also beyond the width of a word.
pub proof fn shifts_multiply_and_divide(operand: u32, distance: u32, carry: bool)
    requires
        distance >= 1,
    ensures
        barrel_shifted(operand, 0, distance, carry).0 == wrapped(operand * pow2(distance as nat)),
        barrel_shifted(operand, 1, distance, carry).0 == operand as int / pow2(
            distance as nat,
        ) as int,
        signed(barrel_shifted(operand, 2, distance, carry).0) == signed(operand) / pow2(
            distance as nat,
        ) as int,
        barrel_shifted(operand, 0, 0, carry).0 == operand,
{
    let power = pow2(distance as nat) as int;
    vstd::arithmetic::power2::lemma_pow2_pos(distance as nat);
    if distance < 32 {
        lemma_words(operand, 0, distance, 0, distance);
        vstd::bits::lemma_u32_shr_is_div(operand, distance);
        vstd::bits::lemma_u32_shr_is_div(!operand, distance);
        vstd::arithmetic::power2::lemma2_to64();
        vstd::arithmetic::power2::lemma2_to64_rest();
        vstd::arithmetic::power2::lemma_pow2_strictly_increases(distance as nat, 32);
        assert(operand * power <= 0xffff_ffff * 0x1_0000_0000) by (nonlinear_arith)
            requires
                operand <= 0xffff_ffff,
                0 < power <= 0x1_0000_0000,
        ;
        vstd::bits::lemma_u64_shl_is_mul(operand as u64, distance as u64);
        if operand >= 0x8000_0000 {
            let complement = 0xffff_ffff - operand;
            lemma_complement(!operand >> distance);
            lemma_floor(complement, power);
            vstd::arithmetic::div_mod::lemma_div_is_ordered_by_denominator(complement, 1, power);
            vstd::arithmetic::div_mod::lemma_div_pos_is_pos(complement, power);
        } else {
            vstd::arithmetic::div_mod::lemma_div_is_ordered_by_denominator(
                operand as int,
                1,
                power,
            );
        }
    } else {
        lemma_large_power(distance as nat);
        lemma_words(operand, 0, 31, 0, 31);
        vstd::arithmetic::div_mod::lemma_mul_mod_noop_right(
            operand as int,
            power,
            0x1_0000_0000,
        );
        vstd::arithmetic::div_mod::lemma_basic_div(operand as int, power);
        vstd::bits::lemma_u32_shr_is_div(operand, 31);
        vstd::bits::lemma_u32_shr_is_div(!operand, 31);
        vstd::arithmetic::power2::lemma2_to64();
        if operand >= 0x8000_0000 {
            lemma_complement(!operand >> 31u32);
            lemma_floor(0xffff_ffff - operand, power);
            vstd::arithmetic::div_mod::lemma_basic_div(0xffff_ffff - operand, power);
        }
    }
}

/// A rotation moves every bit down by the distance, and around. Rotating by no
/// bit stands for moving every bit down by one, with the carry coming in at the
/// top and the lowest bit going out as the new carry.
pub proof fn rotation_moves_bits_around(operand: u32, distance: u32, carry: bool, bit: u32)
    requires
        bit < 32,
    ensures
        distance >= 1 ==> barrel_shifted(operand, 3, distance, carry).0.has_bit(bit)
            == operand.has_bit(((bit + distance) % 32) as u32),
        barrel_shifted(operand, 3, 0, carry).0.has_bit(bit) == (if bit == 31 {
            carry
        } else {
            operand.has_bit((bit + 1) as u32)
        }),
        barrel_shifted(operand, 3, 0, carry).1 == Some(operand.has_bit(0)),
{
    let turn = distance % 32;
    lemma_words(operand, 0, turn, bit, (bit + turn) as u32 % 32);
    assert((bit + turn) % 32 == (bit + distance) % 32);
}

/// The carry of a shift is the last bit that went out: one of the operand, or
/// beyond its ends a zero or, for the arithmetic shift, its sign. Without a shift
/// there is none.
pub proof fn shift_carry_of_every_distance(operand: u32, distance: u32, carry: bool)
    requires
        distance >= 1,
    ensures
        barrel_shifted(operand, 0, distance, carry).1 == Some(
            distance <= 32 && operand.has_bit((32 - distance) as u32),
        ),
        barrel_shifted(operand, 1, distance, carry).1 == Some(
            distance <= 32 && operand.has_bit((distance - 1) as u32),
        ),
        barrel_shifted(operand, 2, distance, carry).1 == Some(
            operand.has_bit(if distance <= 32 { (distance - 1) as u32 } else { 31 }),
        ),
        barrel_shifted(operand, 3, distance, carry).1 == Some(
            operand.has_bit(((distance - 1) % 32) as u32),
        ),
        barrel_shifted(operand, 0, 0, carry).1 is None,
{
    if distance <= 32 {
        crate::cpu::arithmetic::shift_carry_is_last_bit_out(operand, distance, carry);
    } else {
        crate::cpu::arithmetic::shift_carry_is_last_bit_out(operand, 32, carry);
        vstd::bits::lemma_u32_shr_is_div(operand, 31);
        lemma_nothing(operand);
    }
}

proof fn lemma_nothing(word: u32)
    ensures
        word & 0 == 0,
{
    lemma_merge(word, 0, 0, 0);
}

/// Bits that are taken from one of two words by a mask.
pub(crate) proof fn lemma_merge(a: u32, b: u32, mask: u32, bit: u32)
    requires
        bit < 32,
    ensures
        (a & !mask | b & mask).has_bit(bit) == (if mask.has_bit(bit) {
            b.has_bit(bit)
        } else {
            a.has_bit(bit)
        }),
        a & 0 == 0,
{
    assert(((a & !mask | b & mask) & (1u32 << bit) != 0) == (if mask & (1u32 << bit) != 0 {
        b & (1u32 << bit) != 0
    } else {
        a & (1u32 << bit) != 0
    }) && a & 0 == 0) by (bit_vector);
}

/// Each arithmetic operation gives the sum or difference that it stands for,
/// modulo the range of a word. A sum carries where it leaves that range, a
/// difference where it does not go below zero, and both overflow where the signed
/// result does not fit.
pub proof fn operations_add_and_subtract(a: u32, b: u32, carry: bool)
    ensures
        ({
            let one: int = if carry { 1 } else { 0 };
            let borrow: int = 1 - one;
            let sum = computed(DataProcessingOpcode::Add, a, b, carry);
            let carried = computed(DataProcessingOpcode::AddWithCarry, a, b, carry);
            let difference = computed(DataProcessingOpcode::Subtract, a, b, carry);
            let borrowed = computed(DataProcessingOpcode::SubtractWithCarry, a, b, carry);
            let reverse = computed(DataProcessingOpcode::ReverseSubtract, a, b, carry);
            let reverse_borrowed = computed(
                DataProcessingOpcode::ReverseSubtractWithCarry,
                a,
                b,
                carry,
            );
            &&& sum.value == wrapped(a + b)
            &&& sum.status == Some((a + b >= 0x1_0000_0000, !fits_signed(signed(a) + signed(b))))
            &&& carried.value == wrapped(a + b + one)
            &&& carried.status == Some(
                (a + b + one >= 0x1_0000_0000, !fits_signed(signed(a) + signed(b) + one)),
            )
            &&& difference.value == wrapped(a - b)
            &&& difference.status == Some((a >= b, !fits_signed(signed(a) - signed(b))))
            &&& borrowed.value == wrapped(a - b - borrow)
            &&& borrowed.status == Some(
                (a - b - borrow >= 0, !fits_signed(signed(a) - signed(b) - borrow)),
            )
            &&& reverse.value == wrapped(b - a)
            &&& reverse.status == Some((b >= a, !fits_signed(signed(b) - signed(a))))
            &&& reverse_borrowed.value == wrapped(b - a - borrow)
            &&& reverse_borrowed.status == Some(
                (b - a - borrow >= 0, !fits_signed(signed(b) - signed(a) - borrow)),
            )
        }),
{
    lemma_sum(a, b, false);
    lemma_sum(a, b, carry);
    lemma_difference(a, b, true);
    lemma_difference(a, b, carry);
    lemma_difference(b, a, true);
    lemma_difference(b, a, carry);
}

pub(crate) proof fn lemma_signed(word: u32)
    ensures
        word as i32 == signed(word),
{
    lemma_words(word, 0, 0, 0, 0);
}

pub(crate) proof fn lemma_complement(word: u32)
    ensures
        !word == 0xffff_ffff - word,
        signed(!word) == -1 - signed(word),
        word.has_bit(31) == (word >= 0x8000_0000),
{
    lemma_words(word, 0, 0, 0, 0);
}

proof fn lemma_sum(a: u32, b: u32, carry: bool)
    ensures
        ({
            let sum = a + b + (if carry { 1int } else { 0 });
            let outcome = sum_of(a, b, carry);
            &&& outcome.value == wrapped(sum)
            &&& outcome.status == Some(
                (
                    sum >= 0x1_0000_0000,
                    !fits_signed(signed(a) + signed(b) + (if carry { 1int } else { 0 })),
                ),
            )
        }),
{
    lemma_complement(a);
    lemma_complement(b);
    lemma_complement(sum_of(a, b, carry).value);
}

proof fn lemma_difference(a: u32, b: u32, carry: bool)
    ensures
        ({
            let difference = a - b - (if carry { 0int } else { 1 });
            let outcome = sum_of(a, !b, carry);
            &&& outcome.value == wrapped(difference)
            &&& outcome.status == Some(
                (
                    difference >= 0,
                    !fits_signed(signed(a) - signed(b) - (if carry { 0int } else { 1 })),
                ),
            )
        }),
{
    lemma_sum(a, !b, carry);
    lemma_complement(b);
}

/// Each logical operation combines its operands bit by bit, and leaves the carry
/// and the overflow alone.
pub proof fn operations_combine_bits(a: u32, b: u32, carry: bool, bit: u32)
    requires
        bit < 32,
    ensures
        computed(DataProcessingOpcode::And, a, b, carry).value.has_bit(bit) == (a.has_bit(bit)
            && b.has_bit(bit)),
        computed(DataProcessingOpcode::Or, a, b, carry).value.has_bit(bit) == (a.has_bit(bit)
            || b.has_bit(bit)),
        computed(DataProcessingOpcode::Xor, a, b, carry).value.has_bit(bit) == (a.has_bit(bit)
            != b.has_bit(bit)),
        computed(DataProcessingOpcode::BitClear, a, b, carry).value.has_bit(bit) == (a.has_bit(bit)
            && !b.has_bit(bit)),
        computed(DataProcessingOpcode::MoveNot, a, b, carry).value.has_bit(bit) == !b.has_bit(bit),
        computed(DataProcessingOpcode::Move, a, b, carry).value == b,
        computed(DataProcessingOpcode::And, a, b, carry).status is None,
        computed(DataProcessingOpcode::Or, a, b, carry).status is None,
        computed(DataProcessingOpcode::Xor, a, b, carry).status is None,
        computed(DataProcessingOpcode::BitClear, a, b, carry).status is None,
        computed(DataProcessingOpcode::MoveNot, a, b, carry).status is None,
        computed(DataProcessingOpcode::Move, a, b, carry).status is None,
{
    lemma_words(a, b, 0, bit, bit);
    lemma_words(b, a, 0, bit, bit);
    lemma_words(a, !b, 0, bit, bit);
}

/// The status register with the four flags replaced.
pub(crate) open spec fn with_flags(status: u32, carry: bool, overflow: bool, negative: bool, zero: bool) -> u32 {
    status.with_bit(flags::CARRY, carry).with_bit(flags::OVERFLOW, overflow).with_bit(
        flags::NEGATIVE,
        negative,
    ).with_bit(flags::ZERO, zero)
}

pub(crate) proof fn lemma_with_flags(
    status: u32,
    carry: bool,
    overflow: bool,
    negative: bool,
    zero: bool,
    bit: u32,
)
    requires
        bit < 32,
    ensures
        with_flags(status, carry, overflow, negative, zero).has_bit(bit) == (if bit == 31 {
            negative
        } else if bit == 30 {
            zero
        } else if bit == 29 {
            carry
        } else if bit == 28 {
            overflow
        } else {
            status.has_bit(bit)
        }),
{
    let first = status.with_bit(29, carry);
    let second = first.with_bit(28, overflow);
    let third = second.with_bit(31, negative);
    set_bit_is_local_u32(status, 29, carry, bit);
    set_bit_is_local_u32(first, 28, overflow, bit);
    set_bit_is_local_u32(second, 31, negative, bit);
    set_bit_is_local_u32(third, 30, zero, bit);
}

/// Comparing two registers as an instruction.
pub open spec fn comparison(first: usize, second: usize, target: usize) -> Instruction {
    Instruction::DataProcessing {
        cpsr: DataProcessingCpsr::SetFlags,
        opcode: DataProcessingOpcode::TestSubtract,
        operand1: first,
        operand2: Offset::Register(second),
        target,
    }
}

/// After two registers have been compared, each condition holds exactly if the
/// relation holds that it stands for: equal or not, unsigned at least or less, the
/// sign of the difference, its overflow, unsigned greater or not, signed at least
/// or less, signed greater or not, always and never.
pub proof fn conditions_tell_the_comparison<M: MemoryBus>(
    machine: Machine<M::State>,
    cond: u8,
    first: usize,
    second: usize,
    target: usize,
)
    requires
        machine.cpu.well_formed(),
        machine.cpu.condition(cond),
        first < 31,
        second < 31,
    ensures
        ({
            let after = completed::<M>(machine, cond, comparison(first, second, target)).cpu;
            let a = machine.cpu.registers[first as int];
            let b = machine.cpu.registers[second as int];
            &&& after.condition(0) == (a == b)
            &&& after.condition(1) == (a != b)
            &&& after.condition(2) == (a >= b)
            &&& after.condition(3) == (a < b)
            &&& after.condition(4) == (wrapped(a - b) >= 0x8000_0000)
            &&& after.condition(5) == (wrapped(a - b) < 0x8000_0000)
            &&& after.condition(6) == !fits_signed(signed(a) - signed(b))
            &&& after.condition(7) == fits_signed(signed(a) - signed(b))
            &&& after.condition(8) == (a > b)
            &&& after.condition(9) == (a <= b)
            &&& after.condition(10) == (signed(a) >= signed(b))
            &&& after.condition(11) == (signed(a) < signed(b))
            &&& after.condition(12) == (signed(a) > signed(b))
            &&& after.condition(13) == (signed(a) <= signed(b))
            &&& after.condition(14)
            &&& !after.condition(15)
        }),
{
    let after = completed::<M>(machine, cond, comparison(first, second, target)).cpu;
    lemma_comparison::<M>(machine, cond, first, second, target);
    lemma_conditions(after);
}

proof fn lemma_comparison<M: MemoryBus>(
    machine: Machine<M::State>,
    cond: u8,
    first: usize,
    second: usize,
    target: usize,
)
    requires
        machine.cpu.well_formed(),
        machine.cpu.condition(cond),
        first < 31,
        second < 31,
    ensures
        ({
            let after = completed::<M>(machine, cond, comparison(first, second, target)).cpu;
            let a = machine.cpu.registers[first as int];
            let b = machine.cpu.registers[second as int];
            &&& after.flag(31) == (wrapped(a - b) >= 0x8000_0000)
            &&& after.flag(30) == (a == b)
            &&& after.flag(29) == (a >= b)
            &&& after.flag(28) == !fits_signed(signed(a) - signed(b))
        }),
{
    let issued = CpuState { pipeline_size: 1, ..machine.cpu };
    let a = machine.cpu.registers[first as int];
    let b = machine.cpu.registers[second as int];
    let difference = computed(
        DataProcessingOpcode::TestSubtract,
        a,
        b,
        issued.flag(flags::CARRY),
    );
    lemma_difference(a, b, true);
    let after = completed::<M>(machine, cond, comparison(first, second, target)).cpu;
    let carry = (difference.status->0).0;
    let overflow = (difference.status->0).1;
    let negative = difference.value.has_bit(31);
    let zero = difference.value == 0;
    assert(after.cpsr == with_flags(issued.cpsr, carry, overflow, negative, zero));
    lemma_with_flags(issued.cpsr, carry, overflow, negative, zero, 31);
    lemma_with_flags(issued.cpsr, carry, overflow, negative, zero, 30);
    lemma_with_flags(issued.cpsr, carry, overflow, negative, zero, 29);
    lemma_with_flags(issued.cpsr, carry, overflow, negative, zero, 28);
    lemma_complement(difference.value);
}

#[verifier::spinoff_prover]
#[verifier::rlimit(50)]
proof fn lemma_condition(cpu: CpuState, cond: u8)
    requires
        cond < 16,
    ensures
        cpu.condition(cond) == ((if cond / 2 == 0 {
            cpu.flag(30)
        } else if cond / 2 == 1 {
            cpu.flag(29)
        } else if cond / 2 == 2 {
            cpu.flag(31)
        } else if cond / 2 == 3 {
            cpu.flag(28)
        } else if cond / 2 == 4 {
            cpu.flag(29) && !cpu.flag(30)
        } else if cond / 2 == 5 {
            cpu.flag(31) == cpu.flag(28)
        } else if cond / 2 == 6 {
            !cpu.flag(30) && cpu.flag(31) == cpu.flag(28)
        } else {
            true
        }) == (cond % 2 == 0)),
{
    lemma_digits_u8(cond);
}

proof fn lemma_conditions(cpu: CpuState)
    ensures
        cpu.condition(0) == cpu.flag(30),
        cpu.condition(1) == !cpu.flag(30),
        cpu.condition(2) == cpu.flag(29),
        cpu.condition(3) == !cpu.flag(29),
        cpu.condition(4) == cpu.flag(31),
        cpu.condition(5) == !cpu.flag(31),
        cpu.condition(6) == cpu.flag(28),
        cpu.condition(7) == !cpu.flag(28),
        cpu.condition(8) == (cpu.flag(29) && !cpu.flag(30)),
        cpu.condition(9) == (!cpu.flag(29) || cpu.flag(30)),
        cpu.condition(10) == (cpu.flag(31) == cpu.flag(28)),
        cpu.condition(11) == (cpu.flag(31) != cpu.flag(28)),
        cpu.condition(12) == (!cpu.flag(30) && cpu.flag(31) == cpu.flag(28)),
        cpu.condition(13) == (cpu.flag(30) || cpu.flag(31) != cpu.flag(28)),
        cpu.condition(14),
        !cpu.condition(15),
{
    lemma_condition(cpu, 0);
    lemma_condition(cpu, 1);
    lemma_condition(cpu, 2);
    lemma_condition(cpu, 3);
    lemma_condition(cpu, 4);
    lemma_condition(cpu, 5);
    lemma_condition(cpu, 6);
    lemma_condition(cpu, 7);
    lemma_condition(cpu, 8);
    lemma_condition(cpu, 9);
    lemma_condition(cpu, 10);
    lemma_condition(cpu, 11);
    lemma_condition(cpu, 12);
    lemma_condition(cpu, 13);
    lemma_condition(cpu, 14);
    lemma_condition(cpu, 15);
}

} // verus!
