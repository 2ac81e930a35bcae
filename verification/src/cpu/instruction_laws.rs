//! What the instructions do to registers, flags and memory, as relations between
//! numbers.

use crate::bits::{lemma_digits_u32, set_bit_is_local_u32, Bits};
use crate::cpu::alu_laws::{
    lemma_complement, lemma_signed, lemma_with_flags, rotation_moves_bits_around, signed, wrapped,
};
use crate::cpu::arithmetic::{barrel_shifted, computed};
use crate::cpu::flags;
use crate::cpu::instruction::{
    DataProcessingCpsr, DataProcessingOpcode, HalfwordDataTransferMode, Indexing, Instruction,
    Offset, OffsetShift, RegisterList,
};
use crate::cpu::laws::jump_leads_to_target;
use crate::cpu::mode::banked;
use crate::cpu::model::{completed, executable, executed, loaded, place_accessible, CpuState, Machine};
use crate::memory::MemoryBus;
use vstd::prelude::*;

verus! {

/// A data processing instruction puts its result in the target register and in no
/// other one; a test puts it nowhere. Where flags are set, they tell the sign and
/// whether the result is zero, the carry and overflow of a sum or difference, and
/// the carry of the shifter otherwise; no other bit of the status changes. Without
/// flags the status stays, or becomes the saved one.
pub proof fn data_processing_sets_target_and_flags(
    cpu: CpuState,
    status: DataProcessingCpsr,
    opcode: DataProcessingOpcode,
    operand1: usize,
    operand2: Offset,
    target: usize,
    register: int,
    bit: u32,
)
    requires
        cpu.well_formed(),
        operand1 < 31,
        operand2.well_formed(),
        target < 31,
        target != 15,
        0 <= register < 31,
        register != 15,
        bit < 32,
    ensures
        ({
            let after = cpu.processed(status, opcode, operand1, operand2, target);
            let (operand, shifted_out) = cpu.operand(operand2);
            let outcome = computed(
                opcode,
                cpu.operand_fetched(operand2).registers[operand1 as int],
                operand,
                cpu.flag(flags::CARRY),
            );
            let tests = opcode is TestAnd || opcode is TestXor || opcode is TestSubtract
                || opcode is TestAdd;
            &&& after.registers[register] == (if register == target && !tests {
                outcome.value
            } else {
                cpu.registers[register]
            })
            &&& after.spsr == cpu.spsr
            &&& status is Unchanged ==> after.cpsr == cpu.cpsr
            &&& status matches DataProcessingCpsr::LoadSpsr(saved) ==> after.cpsr
                == cpu.spsr[saved as int]
            &&& status is SetFlags ==> after.flag(bit) == (if bit == 31 {
                outcome.value >= 0x8000_0000
            } else if bit == 30 {
                outcome.value == 0
            } else if bit == 29 {
                match outcome.status {
                    Some((carry, overflow)) => carry,
                    None => match shifted_out {
                        Some(carry) => carry,
                        None => cpu.flag(29),
                    },
                }
            } else if bit == 28 {
                match outcome.status {
                    Some((carry, overflow)) => overflow,
                    None => cpu.flag(28),
                }
            } else {
                cpu.flag(bit)
            })
        }),
{
    let (operand, shifted_out) = cpu.operand(operand2);
    let fetched = cpu.operand_resolved(operand2, status is SetFlags);
    let outcome = computed(
        opcode,
        fetched.registers[operand1 as int],
        operand,
        cpu.flag(flags::CARRY),
    );
    if status is SetFlags {
        let negative = outcome.value.has_bit(31);
        let zero = outcome.value == 0;
        lemma_complement(outcome.value);
        if let Some(carry) = shifted_out {
            set_bit_is_local_u32(cpu.cpsr, 29, carry, bit);
        }
        if let Some((carry, overflow)) = outcome.status {
            lemma_with_flags(fetched.cpsr, carry, overflow, negative, zero, bit);
        } else {
            set_bit_is_local_u32(fetched.cpsr, 31, negative, bit);
            set_bit_is_local_u32(fetched.cpsr.with_bit(31, negative), 30, zero, bit);
        }
    }
}

/// A multiplication gives the product of two registers, with a third one added,
/// modulo the range of a word, and its flags tell the sign and whether it is zero.
pub proof fn multiplication_multiplies(
    cpu: CpuState,
    operand1: usize,
    operand2: usize,
    accumulate: Option<usize>,
    target: usize,
    set_flags: bool,
    bit: u32,
)
    requires
        cpu.well_formed(),
        operand1 < 31,
        operand2 < 31,
        target < 31,
        target != 15,
        bit < 32,
    ensures
        ({
            let after = cpu.multiplied(operand1, operand2, accumulate, target, set_flags);
            let a = cpu.registers[operand1 as int] as int;
            let b = cpu.registers[operand2 as int] as int;
            let c = match accumulate {
                Some(register) => cpu.registers[register as int] as int,
                None => 0,
            };
            let result = wrapped(a * b + c);
            &&& after.registers == cpu.registers.update(target as int, result as u32)
            &&& !set_flags ==> after.cpsr == cpu.cpsr
            &&& set_flags ==> after.flag(bit) == (if bit == 31 {
                result >= 0x8000_0000
            } else if bit == 30 {
                result == 0
            } else {
                cpu.flag(bit)
            })
        }),
{
    let a = cpu.registers[operand1 as int] as int;
    let b = cpu.registers[operand2 as int] as int;
    let result = cpu.product(operand1, operand2, accumulate);
    let c = match accumulate {
        Some(register) => cpu.registers[register as int] as int,
        None => 0,
    };
    vstd::arithmetic::div_mod::lemma_add_mod_noop(a * b, c, 0x1_0000_0000);
    vstd::arithmetic::div_mod::lemma_mod_bound(a * b, 0x1_0000_0000);
    assert(result == wrapped(a * b + c));
    lemma_complement(result);
    set_bit_is_local_u32(cpu.cpsr, 30, result == 0, bit);
    set_bit_is_local_u32(
        cpu.cpsr.with_bit(30, result == 0),
        31,
        result.has_bit(31),
        bit,
    );
}

/// How a double word looks as a signed one, and cut into words.
pub(crate) proof fn lemma_double_words(a: u64, b: i64, high: u32, low: u32)
    ensures
        a as i64 == if a < 0x8000_0000_0000_0000 { a as int } else { a - 0x1_0000_0000_0000_0000 },
        b as u64 == if b < 0 { b + 0x1_0000_0000_0000_0000 } else { b as int },
        a as u32 == a % 0x1_0000_0000,
        (a >> 32) as u32 == a / 0x1_0000_0000,
        ((high as u64) << 32) | (low as u64) == high * 0x1_0000_0000 + low,
{
    assert(a as i64 == (if a < 0x8000_0000_0000_0000 {
        a as int
    } else {
        a - 0x1_0000_0000_0000_0000
    }) && b as u64 == (if b < 0 {
        b + 0x1_0000_0000_0000_0000
    } else {
        b as int
    }) && a as u32 == a % 0x1_0000_0000 && (a >> 32) as u32 == a / 0x1_0000_0000 && ((high as u64)
        << 32) | (low as u64) == high * 0x1_0000_0000 + low) by (bit_vector);
}

/// A number modulo the range of a double word.
pub open spec fn wrapped_double(number: int) -> int {
    number % 0x1_0000_0000_0000_0000
}

/// A long multiplication gives the double word product of two registers, taken as
/// signed or unsigned numbers, with the double word in the target registers added.
pub proof fn long_multiplication_multiplies(
    cpu: CpuState,
    operand1: usize,
    operand2: usize,
    target_low: usize,
    target_high: usize,
    accumulate: bool,
    is_signed: bool,
    set_flags: bool,
    bit: u32,
)
    requires
        cpu.well_formed(),
        operand1 < 31,
        operand2 < 31,
        target_low < 31,
        target_low != 15,
        target_high < 31,
        target_high != 15,
        target_low != target_high,
        bit < 32,
    ensures
        ({
            let after = cpu.long_multiplied(
                operand1,
                operand2,
                target_low,
                target_high,
                accumulate,
                is_signed,
                set_flags,
            );
            let first = cpu.registers[operand1 as int];
            let second = cpu.registers[operand2 as int];
            let a = if is_signed { signed(first) } else { first as int };
            let b = if is_signed { signed(second) } else { second as int };
            let c = if accumulate {
                cpu.registers[target_high as int] * 0x1_0000_0000
                    + cpu.registers[target_low as int]
            } else {
                0
            };
            let result = after.registers[target_high as int] * 0x1_0000_0000
                + after.registers[target_low as int];
            &&& result == wrapped_double(a * b + c)
            &&& !set_flags ==> after.cpsr == cpu.cpsr
            &&& set_flags ==> after.flag(bit) == (if bit == 31 {
                result >= 0x8000_0000_0000_0000
            } else if bit == 30 {
                result == 0
            } else {
                cpu.flag(bit)
            })
        }),
{
    let product = cpu.long_product(
        operand1,
        operand2,
        target_low,
        target_high,
        accumulate,
        is_signed,
    );
    lemma_long_product(
        cpu,
        operand1,
        operand2,
        target_low,
        target_high,
        accumulate,
        is_signed,
    );
    lemma_double_words(product, 0, 0, 0);
    let low = product as u32;
    let high = (product >> 32) as u32;
    let zero = high == 0 && low == 0;
    assert(product == high * 0x1_0000_0000 + low);
    lemma_complement(high);
    set_bit_is_local_u32(cpu.cpsr, 30, zero, bit);
    set_bit_is_local_u32(cpu.cpsr.with_bit(30, zero), 31, high.has_bit(31), bit);
}

proof fn lemma_long_product(
    cpu: CpuState,
    operand1: usize,
    operand2: usize,
    target_low: usize,
    target_high: usize,
    accumulate: bool,
    is_signed: bool,
)
    ensures
        ({
            let first = cpu.registers[operand1 as int];
            let second = cpu.registers[operand2 as int];
            let a = if is_signed { signed(first) } else { first as int };
            let b = if is_signed { signed(second) } else { second as int };
            let c = if accumulate {
                cpu.registers[target_high as int] * 0x1_0000_0000
                    + cpu.registers[target_low as int]
            } else {
                0
            };
            cpu.long_product(operand1, operand2, target_low, target_high, accumulate, is_signed)
                == wrapped_double(a * b + c)
        }),
{
    let first = cpu.registers[operand1 as int];
    let second = cpu.registers[operand2 as int];
    let high = cpu.registers[target_high as int];
    let low = cpu.registers[target_low as int];
    let sum: u64 = if accumulate { ((high as u64) << 32) | (low as u64) } else { 0 };
    lemma_double_words(sum, 0, high, low);
    lemma_signed(first);
    lemma_signed(second);
    let a = signed(first);
    let b = signed(second);
    assert(-0x4000_0000_0000_0000 <= a * b <= 0x4000_0000_0000_0000) by (nonlinear_arith)
        requires
            -0x8000_0000 <= a <= 0x8000_0000,
            -0x8000_0000 <= b <= 0x8000_0000,
    ;
    assert(0 <= first * second <= 0xffff_ffff * 0xffff_ffff) by (nonlinear_arith)
        requires
            0 <= first <= 0xffff_ffff,
            0 <= second <= 0xffff_ffff,
    ;
    if is_signed {
        let factor = ((first as i32) as i64).wrapping_mul((second as i32) as i64);
        assert(factor == a * b);
        lemma_signed_sum(factor, sum);
    }
}

/// A signed double word added to an unsigned one, modulo their range.
proof fn lemma_signed_sum(a: i64, b: u64)
    ensures
        a.wrapping_add(b as i64) as u64 == wrapped_double(a + b),
{
    lemma_double_words(b, a.wrapping_add(b as i64), 0, 0);
}

/// The base register of a transfer with the offset added or subtracted.
pub open spec fn displaced(base: u32, value: u32, subtract: bool) -> int {
    if subtract { wrapped(base - value) } else { wrapped(base + value) }
}

/// What a transfer does to its base register: the displaced base goes back to it
/// where that is asked for, or where the access came before the displacement.
pub open spec fn base_after(base: u32, value: u32, index: Indexing) -> int {
    if index.write_back || !index.modify_first {
        displaced(base, value, index.subtract)
    } else {
        base as int
    }
}

/// Where a transfer accesses memory: at the displaced base if the displacement
/// comes first, at the base otherwise.
pub open spec fn accessed(base: u32, value: u32, index: Indexing) -> int {
    if index.modify_first { displaced(base, value, index.subtract) } else { base as int }
}

proof fn lemma_transfer_base(cpu: CpuState, index: Indexing, offset: Offset, register: int)
    requires
        cpu.well_formed(),
        index.base < 31,
        index.base != 15,
        0 <= register < 31,
        register != 15,
    ensures
        ({
            let base = cpu.registers[index.base as int];
            let value = cpu.operand(offset).0;
            let fetched = cpu.operand_fetched(offset);
            let ready = fetched.indexed(index, value).ticked();
            &&& fetched.indexed_address(index, value) == accessed(base, value, index)
            &&& ready.well_formed()
            &&& ready.registers[index.base as int] == base_after(base, value, index)
            &&& register != index.base ==> ready.registers[register] == cpu.registers[register]
            &&& ready.cpsr == cpu.cpsr
            &&& ready.spsr == cpu.spsr
            &&& ready.skip_test == cpu.skip_test
            &&& ready.cycle == (cpu.cycle + 1 + fetch_cycles(offset)) % 0x1_0000
        }),
{
    let base = cpu.registers[index.base as int];
    let value = cpu.operand(offset).0;
    let fetched = cpu.operand_fetched(offset);
    assert(fetched.registers[index.base as int] == base);
    assert(fetched.well_formed());
    assert(fetched.moved_base(index, value) == displaced(base, value, index.subtract));
    let indexed = fetched.indexed(index, value);
    assert(indexed.well_formed());
    assert(indexed.registers[index.base as int] == base_after(base, value, index));
}

#[verifier::spinoff_prover]
#[verifier::rlimit(50)]
proof fn lemma_loaded(word: u32, address: u32, byte: bool, bit: u32)
    requires
        bit < 32,
    ensures
        byte ==> loaded(word, address, byte) == word % 0x100,
        !byte ==> loaded(word, address, byte).has_bit(bit) == word.has_bit(
            ((bit + 8 * (address % 4)) % 32) as u32,
        ),
        !byte && address % 4 == 0 ==> loaded(word, address, byte) == word,
{
    lemma_digits_u32(word);
    let distance = (8 * (address % 4)) as u32;
    if distance > 0 {
        rotation_moves_bits_around(word, distance, false, bit);
        assert(barrel_shifted(word, 3, distance, false).0 == loaded(word, address, false));
    }
}

/// A load takes the low byte of the word at its address, or the word with the
/// addressed byte moved to the lowest place; a store writes the register. Both
/// update the base register, and leave every other register and the status alone.
pub proof fn transfer_loads_or_stores<M: MemoryBus>(
    machine: Machine<M::State>,
    load: bool,
    index: Indexing,
    target: usize,
    offset: Offset,
    byte: bool,
    register: int,
    bit: u32,
)
    requires
        machine.cpu.well_formed(),
        index.base < 31,
        index.base != 15,
        target < 31,
        target != 15,
        offset.well_formed(),
        0 <= register < 31,
        register != 15,
        bit < 32,
    ensures
        ({
            let cpu = machine.cpu;
            let after = executed::<M>(
                machine,
                Instruction::SingleDataTransfer { load, index, target, offset, byte },
            );
            let base = cpu.registers[index.base as int];
            let value = cpu.operand(offset).0;
            let address = accessed(base, value, index);
            let word = M::word_at(machine.memory, address as u32);
            let result = after.cpu.registers[target as int];
            &&& load ==> after.memory == machine.memory
            &&& load && byte ==> result == word % 0x100
            &&& load && !byte ==> result.has_bit(bit) == word.has_bit(
                ((bit + 8 * (address % 4)) % 32) as u32,
            )
            &&& load && !byte && address % 4 == 0 ==> result == word
            &&& !load ==> after.memory == M::written(
                machine.memory,
                address as u32,
                if target == index.base {
                    base_after(base, value, index) as u32
                } else {
                    cpu.registers[target as int]
                },
                if byte { 1 } else { 4 },
            )
            &&& !(load && index.base == target) ==> after.cpu.registers[index.base as int]
                == base_after(base, value, index)
            &&& register != index.base && !(load && register == target)
                ==> after.cpu.registers[register] == cpu.registers[register]
            &&& after.cpu.cpsr == cpu.cpsr
            &&& after.cpu.spsr == cpu.spsr
        }),
{
    let cpu = machine.cpu;
    let base = cpu.registers[index.base as int];
    let value = cpu.operand(offset).0;
    let address = accessed(base, value, index) as u32;
    let word = M::word_at(machine.memory, address);
    lemma_transfer_base(cpu, index, offset, target as int);
    lemma_transfer_base(cpu, index, offset, register);
    lemma_loaded(word, address, byte, bit);
}

/// The low byte and half word of a word, with their signs.
proof fn lemma_parts(word: u32)
    ensures
        ((word as i8) as i32) as u32 == if word % 0x100 < 0x80 {
            word % 0x100
        } else {
            (0xffff_ff00 + word % 0x100) as u32
        },
        ((word as i16) as i32) as u32 == if word % 0x1_0000 < 0x8000 {
            word % 0x1_0000
        } else {
            (0xffff_0000 + word % 0x1_0000) as u32
        },
        (word as u16) as u32 == word % 0x1_0000,
        word & 1 == word % 2,
{
    assert(((word as i8) as i32) as u32 == (if word % 0x100 < 0x80 {
        word % 0x100
    } else {
        (0xffff_ff00 + word % 0x100) as u32
    }) && ((word as i16) as i32) as u32 == (if word % 0x1_0000 < 0x8000 {
        word % 0x1_0000
    } else {
        (0xffff_0000 + word % 0x1_0000) as u32
    }) && (word as u16) as u32 == word % 0x1_0000 && word & 1 == word % 2) by (bit_vector);
}

/// A load of a half word takes the low half of the word at its address, a load of
/// a signed byte or half word repeats the sign of the low byte or half; a store
/// writes the low half of the register. An odd address is taken note of, but for
/// bytes.
pub proof fn half_transfer_loads_or_stores<M: MemoryBus>(
    machine: Machine<M::State>,
    mode: HalfwordDataTransferMode,
    index: Indexing,
    target: usize,
    offset: Offset,
    register: int,
)
    requires
        machine.cpu.well_formed(),
        index.base < 31,
        index.base != 15,
        target < 31,
        target != 15,
        offset.well_formed(),
        0 <= register < 31,
        register != 15,
    ensures
        ({
            let cpu = machine.cpu;
            let after = executed::<M>(
                machine,
                Instruction::HalfwordDataTransfer { mode, index, target, offset },
            );
            let base = cpu.registers[index.base as int];
            let value = cpu.operand(offset).0;
            let address = accessed(base, value, index);
            let word = M::word_at(machine.memory, address as u32);
            let byte = (word % 0x100) as int;
            let half = (word % 0x1_0000) as int;
            let load = !(mode is StoreHalfword);
            let result = after.cpu.registers[target as int];
            &&& load ==> after.memory == machine.memory
            &&& mode is LoadUnsignedHalfword ==> result == half
            &&& mode is LoadSignedByte ==> signed(result) == (if byte < 0x80 {
                byte
            } else {
                byte - 0x100
            })
            &&& mode is LoadSignedHalfword ==> signed(result) == (if half < 0x8000 {
                half
            } else {
                half - 0x1_0000
            })
            &&& !load ==> after.memory == M::written(
                machine.memory,
                address as u32,
                if target == index.base {
                    base_after(base, value, index) as u32
                } else {
                    cpu.registers[target as int]
                },
                2,
            )
            &&& !(load && index.base == target) ==> after.cpu.registers[index.base as int]
                == base_after(base, value, index)
            &&& register != index.base && !(load && register == target)
                ==> after.cpu.registers[register] == cpu.registers[register]
            &&& after.cpu.skip_test == (cpu.skip_test || (address % 2 == 1 && !(
            mode is LoadSignedByte)))
            &&& after.cpu.cpsr == cpu.cpsr
            &&& after.cpu.spsr == cpu.spsr
        }),
{
    let cpu = machine.cpu;
    let base = cpu.registers[index.base as int];
    let address = accessed(base, cpu.operand(offset).0, index) as u32;
    lemma_transfer_base(cpu, index, offset, target as int);
    lemma_transfer_base(cpu, index, offset, register);
    lemma_parts(M::word_at(machine.memory, address));
    lemma_parts(address);
}

/// An exchange loads what was in memory before, and stores the source register.
#[verifier::spinoff_prover]
#[verifier::rlimit(50)]
pub proof fn swap_exchanges<M: MemoryBus>(
    machine: Machine<M::State>,
    source: usize,
    target: usize,
    base: usize,
    byte: bool,
)
    requires
        machine.cpu.well_formed(),
        source < 31,
        target < 31,
        target != 15,
        base < 31,
    ensures
        ({
            let cpu = machine.cpu;
            let after = executed::<M>(
                machine,
                Instruction::SingleDataSwap { source, target, base, byte },
            );
            let address = cpu.registers[base as int];
            let word = M::word_at(machine.memory, address);
            let result = after.cpu.registers[target as int];
            &&& byte ==> result == word % 0x100
            &&& !byte && address % 4 == 0 ==> result == word
            &&& after.memory == M::written(
                machine.memory,
                address,
                cpu.registers[source as int],
                if byte { 1 } else { 4 },
            )
            &&& after.cpu == (CpuState {
                registers: cpu.registers.update(target as int, result),
                ..cpu
            })
        }),
{
    lemma_digits_u32(M::word_at(machine.memory, machine.cpu.registers[base as int]));
}

/// The number of listed registers with a number below `end`.
pub open spec fn listed_below(bits: u16, end: nat) -> nat
    decreases end,
{
    if end == 0 {
        0
    } else {
        listed_below(bits, (end - 1) as nat) + (if bits.has_bit((end - 1) as u16) { 1nat } else { 0 })
    }
}

/// A block transfer moves exactly the registers whose bits are set, in the order
/// of their numbers: before a register come those with lower numbers.
pub proof fn listed_registers_are_in_order(registers: RegisterList, number: u16)
    requires
        number < 16,
    ensures
        registers.places().len() == listed_below(registers.bits, 16),
        registers.bits.has_bit(number) ==> listed_below(registers.bits, number as nat)
            < registers.places().len() && registers.places()[listed_below(
            registers.bits,
            number as nat,
        ) as int] == banked(registers.bank, number as int),
{
    lemma_listed(registers, 16, number);
}

proof fn lemma_listed(registers: RegisterList, end: nat, number: u16)
    requires
        end <= 16,
        number < 16,
    ensures
        registers.below(end).len() == listed_below(registers.bits, end),
        number < end && registers.bits.has_bit(number) ==> listed_below(
            registers.bits,
            number as nat,
        ) < registers.below(end).len() && registers.below(end)[listed_below(
            registers.bits,
            number as nat,
        ) as int] == banked(registers.bank, number as int),
    decreases end,
{
    if end > 0 {
        lemma_listed(registers, (end - 1) as nat, number);
    }
}

/// Where a block transfer starts and what it leaves in its base register: the
/// words lie from the base upwards or up to the base, with or without the word at
/// the base itself, and the base moves by four bytes for each register.
pub proof fn block_lies_beside_the_base(cpu: CpuState, registers: RegisterList, index: Indexing)
    requires
        cpu.well_formed(),
        index.base < 31,
    ensures
        ({
            let base = cpu.registers[index.base as int];
            let size = 4 * registers.places().len();
            &&& !index.subtract && !index.modify_first ==> cpu.block_start(registers, index) == base
            &&& !index.subtract && index.modify_first ==> cpu.block_start(registers, index)
                == wrapped(base + 4)
            &&& index.subtract && !index.modify_first ==> cpu.block_start(registers, index)
                == wrapped(base - size + 4)
            &&& index.subtract && index.modify_first ==> cpu.block_start(registers, index)
                == wrapped(base - size)
            &&& cpu.block_end(registers, index) == (if index.subtract {
                wrapped(base - size)
            } else {
                wrapped(base + size)
            })
        }),
{
    registers.lemma_below(16, 16);
}

/// After a block transfer the base register holds the moved base where that is
/// asked for, whatever has been loaded, and the saved status is taken up where that
/// is asked for.
pub proof fn block_transfer_updates_base_and_status<M: MemoryBus>(
    machine: Machine<M::State>,
    load: bool,
    registers: RegisterList,
    load_spsr: Option<usize>,
    index: Indexing,
)
    requires
        machine.cpu.well_formed(),
        index.base < 31,
        index.base != 15,
        load_spsr is Some ==> load_spsr->0 < 5,
    ensures
        ({
            let after = executed::<M>(
                machine,
                Instruction::BlockDataTransfer { load, registers, load_spsr, index },
            ).cpu;
            let size = 4 * registers.places().len();
            let base = machine.cpu.registers[index.base as int];
            &&& index.write_back ==> after.registers[index.base as int] == displaced(
                base,
                size as u32,
                index.subtract,
            )
            &&& !load && !index.write_back ==> after.registers[index.base as int] == base
            &&& after.cpsr == (match load_spsr {
                Some(saved) => machine.cpu.spsr[saved as int],
                None => machine.cpu.cpsr,
            })
            &&& after.spsr == machine.cpu.spsr
        }),
{
    registers.lemma_below(16, 16);
    lemma_block_keeps_status::<M>(
        Machine { cpu: machine.cpu.ticked(), ..machine },
        load,
        registers.places(),
        machine.cpu.block_start(registers, index),
        registers.places().len(),
    );
}

proof fn lemma_block_keeps_status<M: MemoryBus>(
    machine: Machine<M::State>,
    load: bool,
    places: Seq<usize>,
    start: u32,
    count: nat,
)
    requires
        machine.cpu.well_formed(),
        count <= places.len(),
        forall|i: int| 0 <= i < places.len() ==> #[trigger] places[i] < 31,
    ensures
        ({
            let moved = crate::cpu::model::block_moved::<M>(machine, load, places, start, count);
            &&& moved.cpu.well_formed()
            &&& moved.cpu.cpsr == machine.cpu.cpsr
            &&& moved.cpu.spsr == machine.cpu.spsr
            &&& !load ==> moved.cpu == machine.cpu
        }),
    decreases count,
{
    if count > 0 {
        lemma_block_keeps_status::<M>(machine, load, places, start, (count - 1) as nat);
        assert(places[count - 1] < 31);
    }
}

/// A write to a status register takes the masked bits from the operand and keeps
/// the others, of that status register alone; a read copies a status register.
pub proof fn status_transfer_is_masked<M: MemoryBus>(
    machine: Machine<M::State>,
    spsr: Option<usize>,
    source: Offset,
    mask: u32,
    target: usize,
    bit: u32,
)
    requires
        machine.cpu.well_formed(),
        spsr is Some ==> spsr->0 < 5,
        source.well_formed(),
        target < 31,
        target != 15,
        bit < 32,
    ensures
        ({
            let cpu = machine.cpu;
            let after = executed::<M>(machine, Instruction::StorePsr { spsr, source, mask });
            let read = executed::<M>(machine, Instruction::LoadPsr { spsr, target });
            let old_status = match spsr {
                Some(saved) => cpu.spsr[saved as int],
                None => cpu.cpsr,
            };
            let new_status = match spsr {
                Some(saved) => after.cpu.spsr[saved as int],
                None => after.cpu.cpsr,
            };
            &&& new_status.has_bit(bit) == (if mask.has_bit(bit) {
                cpu.operand(source).0.has_bit(bit)
            } else {
                old_status.has_bit(bit)
            })
            &&& spsr is None ==> after.cpu.spsr == cpu.spsr
            &&& spsr is Some ==> after.cpu.cpsr == cpu.cpsr && after.cpu.spsr
                == cpu.spsr.update(spsr->0 as int, new_status)
            &&& after.memory == machine.memory
            &&& read.cpu == (CpuState {
                registers: cpu.registers.update(target as int, old_status),
                ..cpu
            })
            &&& read.memory == machine.memory
        }),
{
    let cpu = machine.cpu;
    let value = cpu.operand(source).0;
    let old_status = match spsr {
        Some(saved) => cpu.spsr[saved as int],
        None => cpu.cpsr,
    };
    crate::cpu::alu_laws::lemma_merge(old_status, value, mask, bit);
}

/// A branch leads to its offset from the place two instructions after it, and
/// changes nothing but the program counter.
#[verifier::spinoff_prover]
#[verifier::rlimit(50)]
pub proof fn branch_leads_by_its_offset<M: MemoryBus>(
    machine: Machine<M::State>,
    cond: u8,
    offset: i32,
)
    requires
        machine.cpu.well_formed(),
        machine.cpu.condition(cond),
        machine.cpu.pipeline_size == 2,
    ensures
        ({
            let size: int = if machine.cpu.flag(flags::THUMB) { 2 } else { 4 };
            let after = completed::<M>(
                machine,
                cond,
                Instruction::Branch { offset, link_register: None },
            ).cpu;
            let target = wrapped(machine.cpu.fetch_address() + 2 * size + offset);
            &&& size == 2 ==> after.fetch_address() == target - target % 2
            &&& size == 4 ==> after.fetch_address() == target - target % 4
            &&& after.registers == machine.cpu.registers.update(15, after.registers[15])
            &&& after.cpsr == machine.cpu.cpsr
            &&& after.spsr == machine.cpu.spsr
        }),
{
    let cpu = CpuState { pipeline_size: 1, ..machine.cpu };
    let target = cpu.pc().wrapping_add_signed(offset);
    lemma_jump(cpu, target, 0);
    lemma_place(machine.cpu);
}

proof fn lemma_place(cpu: CpuState)
    requires
        cpu.pipeline_size == 2,
    ensures
        cpu.flag(flags::THUMB) ==> cpu.pc() == wrapped(cpu.fetch_address() + 4),
        !cpu.flag(flags::THUMB) ==> cpu.pc() == wrapped(cpu.fetch_address() + 8),
{
}

/// A call in word code leads where the branch without a link does, and leaves the
/// address of the next instruction in the link register.
#[verifier::spinoff_prover]
#[verifier::rlimit(50)]
pub proof fn word_call_links<M: MemoryBus>(
    machine: Machine<M::State>,
    cond: u8,
    offset: i32,
    link: usize,
)
    requires
        machine.cpu.well_formed(),
        machine.cpu.condition(cond),
        machine.cpu.pipeline_size == 2,
        !machine.cpu.flag(flags::THUMB),
        link < 31,
        link != 15,
        machine.cpu.pc() >= 4,
    ensures
        ({
            let here = machine.cpu.fetch_address();
            let after = completed::<M>(
                machine,
                cond,
                Instruction::Branch { offset, link_register: Some(link) },
            ).cpu;
            let target = wrapped(here + 8 + offset);
            &&& after.fetch_address() == target - target % 4
            &&& after.registers[link as int] == wrapped(here + 4)
        }),
{
    let cpu = CpuState { pipeline_size: 1, ..machine.cpu };
    let target = cpu.pc().wrapping_add_signed(offset);
    let linked = cpu.with_register(link as int, (cpu.pc() - 4) as u32);
    lemma_jump(linked, target, link as int);
    lemma_place(machine.cpu);
    lemma_completed::<M>(
        machine,
        cond,
        Instruction::Branch { offset, link_register: Some(link) },
    );
    assert(cpu.branched(offset, Some(link)) == linked.jumped(target));
}

/// The second half of a call in half word code leads to its offset from the link
/// register, and leaves there the address of the next instruction, with the lowest
/// bit set.
pub proof fn half_word_call_links<M: MemoryBus>(
    machine: Machine<M::State>,
    cond: u8,
    offset: i32,
    link: usize,
)
    requires
        machine.cpu.well_formed(),
        machine.cpu.condition(cond),
        machine.cpu.pipeline_size == 2,
        machine.cpu.flag(flags::THUMB),
        link < 31,
        link != 15,
        offset >= 0,
        machine.cpu.registers[link as int] + offset <= u32::MAX,
        machine.cpu.pc() >= 1,
    ensures
        ({
            let here = machine.cpu.fetch_address();
            let after = completed::<M>(
                machine,
                cond,
                Instruction::Branch { offset, link_register: Some(link) },
            ).cpu;
            let target = machine.cpu.registers[link as int] + offset;
            &&& after.fetch_address() == target - target % 2
            &&& after.registers[link as int] == wrapped(here + 3)
        }),
{
    let cpu = CpuState { pipeline_size: 1, ..machine.cpu };
    let target = (cpu.registers[link as int] + (offset as u32)) as u32;
    lemma_jump(cpu, target, link as int);
    lemma_link_after_jump(cpu, target, link as int, (cpu.pc() - 1) as u32);
    lemma_place(machine.cpu);
}

#[verifier::spinoff_prover]
#[verifier::rlimit(50)]
proof fn lemma_jump(cpu: CpuState, target: u32, register: int)
    requires
        cpu.well_formed(),
        0 <= register < 31,
        register != 15,
    ensures
        ({
            let after = cpu.jumped(target).ticked();
            &&& cpu.flag(flags::THUMB) ==> after.fetch_address() == target - target % 2
            &&& !cpu.flag(flags::THUMB) ==> after.fetch_address() == target - target % 4
            &&& after.registers =~= cpu.registers.update(15, after.registers[15])
            &&& after.registers[register] == cpu.registers[register]
        }),
{
    lemma_digits_u32(target);
    jump_leads_to_target(cpu, target);
}

proof fn lemma_link_after_jump(cpu: CpuState, target: u32, link: int, value: u32)
    requires
        cpu.well_formed(),
        0 <= link < 31,
        link != 15,
    ensures
        ({
            let after = cpu.jumped(target).with_register(link, value).ticked();
            &&& after.fetch_address() == cpu.jumped(target).ticked().fetch_address()
            &&& after.registers[link] == value
        }),
{
}

/// How many cycles an instruction takes beside the one that ends it: one for a
/// jump, one for a transfer, one for a distance that is fetched from a register.
pub open spec fn extra_cycles(instruction: Instruction) -> int {
    match instruction {
        Instruction::Interrupt => 1,
        Instruction::Branch { offset, link_register } => 1,
        Instruction::BranchAndExchange { register } => 1,
        Instruction::SingleDataTransfer { load, index, target, offset, byte } => 1 + fetch_cycles(
            offset,
        ),
        Instruction::HalfwordDataTransfer { mode, index, target, offset } => 1 + fetch_cycles(
            offset,
        ),
        Instruction::StorePsr { spsr, source, mask } => fetch_cycles(source),
        Instruction::DataProcessing { cpsr, opcode, operand1, operand2, target } => fetch_cycles(
            operand2,
        ),
        _ => 0,
    }
}

/// How many cycles it takes to fetch an operand.
pub open spec fn fetch_cycles(offset: Offset) -> int {
    match offset {
        Offset::ShiftedRegister { register, shift_type, shift } => if shift is Register {
            1
        } else {
            0
        },
        _ => 0,
    }
}

/// Whether an instruction writes the program counter as a register, or moves a
/// block of registers.
pub open spec fn moves_counter_or_block(instruction: Instruction) -> bool {
    match instruction {
        Instruction::Branch { offset, link_register } => link_register == Some(15usize),
        Instruction::LoadPsr { spsr, target } => target == 15,
        Instruction::BlockDataTransfer { load, registers, load_spsr, index } => true,
        Instruction::SingleDataTransfer { load, index, target, offset, byte } => target == 15
            || index.base == 15,
        Instruction::HalfwordDataTransfer { mode, index, target, offset } => target == 15
            || index.base == 15,
        Instruction::SingleDataSwap { source, target, base, byte } => target == 15,
        Instruction::Multiply { operand1, operand2, accumulate, target, set_flags } => target == 15,
        Instruction::MultiplyLong {
            operand1,
            operand2,
            target_low,
            target_high,
            accumulate,
            signed,
            set_flags,
        } => target_low == 15 || target_high == 15,
        Instruction::DataProcessing { cpsr, opcode, operand1, operand2, target } => target == 15,
        _ => false,
    }
}

/// An instruction takes one cycle and its extra ones.
#[verifier::spinoff_prover]
#[verifier::rlimit(50)]
pub proof fn instructions_take_their_cycles<M: MemoryBus>(
    machine: Machine<M::State>,
    cond: u8,
    instruction: Instruction,
)
    requires
        machine.cpu.well_formed(),
        machine.cpu.condition(cond),
        instruction.well_formed(),
        !moves_counter_or_block(instruction),
    ensures
        completed::<M>(machine, cond, instruction).cpu.cycle == (machine.cpu.cycle + 1
            + extra_cycles(instruction)) % 0x1_0000,
{
    let cpu = CpuState { pipeline_size: 1, ..machine.cpu };
    let issued = Machine { cpu, ..machine };
    lemma_executed_cycles::<M>(issued, instruction);
    lemma_completed::<M>(machine, cond, instruction);
    lemma_tick_counts(executed::<M>(issued, instruction).cpu);
}

proof fn lemma_completed<M: MemoryBus>(
    machine: Machine<M::State>,
    cond: u8,
    instruction: Instruction,
)
    requires
        machine.cpu.condition(cond),
    ensures
        completed::<M>(machine, cond, instruction).cpu == executed::<M>(
            Machine { cpu: CpuState { pipeline_size: 1, ..machine.cpu }, ..machine },
            instruction,
        ).cpu.ticked(),
{
}

proof fn lemma_tick_counts(cpu: CpuState)
    ensures
        cpu.ticked().cycle == (cpu.cycle + 1) % 0x1_0000,
{
}

proof fn lemma_executed_cycles<M: MemoryBus>(machine: Machine<M::State>, instruction: Instruction)
    requires
        machine.cpu.well_formed(),
        instruction.well_formed(),
        !moves_counter_or_block(instruction),
    ensures
        executed::<M>(machine, instruction).cpu.cycle == (machine.cpu.cycle + extra_cycles(
            instruction,
        )) % 0x1_0000,
{
    let cpu = machine.cpu;
    match instruction {
        Instruction::SingleDataTransfer { load, index, target, offset, byte } => {
            lemma_transfer_base(cpu, index, offset, target as int);
        },
        Instruction::HalfwordDataTransfer { mode, index, target, offset } => {
            lemma_transfer_base(cpu, index, offset, target as int);
        },
        Instruction::DataProcessing { cpsr, opcode, operand1, operand2, target } => {
            lemma_processing_cycles(cpu, cpsr, opcode, operand1, operand2, target);
        },
        Instruction::BlockDataTransfer { load, registers, load_spsr, index } => {},
        Instruction::Interrupt => {
            assert(cpu.interrupted().cycle == cpu.cycle.wrapping_add(1));
        },
        Instruction::Branch { offset, link_register } => {
            assert(cpu.branched(offset, link_register).cycle == cpu.cycle.wrapping_add(1));
        },
        Instruction::LoadPsr { spsr, target } => {},
        Instruction::StorePsr { spsr, source, mask } => {
            assert(cpu.status_written(spsr, source, mask).cycle == cpu.operand_fetched(
                source,
            ).cycle);
        },
        Instruction::BranchAndExchange { register } => {},
        Instruction::SingleDataSwap { source, target, base, byte } => {},
        Instruction::Multiply { operand1, operand2, accumulate, target, set_flags } => {
            assert(cpu.multiplied(operand1, operand2, accumulate, target, set_flags).cycle
                == cpu.cycle);
        },
        Instruction::MultiplyLong {
            operand1,
            operand2,
            target_low,
            target_high,
            accumulate,
            signed,
            set_flags,
        } => {
            assert(cpu.long_multiplied(
                operand1,
                operand2,
                target_low,
                target_high,
                accumulate,
                signed,
                set_flags,
            ).cycle == cpu.cycle);
        },
    }
}

proof fn lemma_processing_cycles(
    cpu: CpuState,
    status: DataProcessingCpsr,
    opcode: DataProcessingOpcode,
    operand1: usize,
    operand2: Offset,
    target: usize,
)
    requires
        target != 15,
    ensures
        cpu.processed(status, opcode, operand1, operand2, target).cycle == (cpu.cycle + fetch_cycles(
            operand2,
        )) % 0x1_0000,
{
    let fetched = cpu.operand_resolved(operand2, status is SetFlags);
    assert(fetched.cycle == (cpu.cycle + fetch_cycles(operand2)) % 0x1_0000);
}

/// What an operand is: a constant, a register, or a register that the shifter has
/// shifted by a constant or by the low byte of a register. No distance in a register
/// means no shift. Fetching such a distance takes a cycle, after which the program
/// counter is one instruction further on.
#[verifier::spinoff_prover]
#[verifier::rlimit(50)]
pub proof fn operands_are_fetched_and_shifted(cpu: CpuState, offset: Offset)
    requires
        cpu.well_formed(),
        offset.well_formed(),
    ensures
        match offset {
            Offset::Immediate { value, carry } => cpu.operand(offset) == (value, carry),
            Offset::Register(register) => cpu.operand(offset) == (
                cpu.registers[register as int],
                None::<bool>,
            ),
            Offset::ShiftedRegister { register, shift_type, shift } => match shift {
                OffsetShift::Immediate(distance) => cpu.operand(offset) == barrel_shifted(
                    cpu.registers[register as int],
                    shift_type,
                    distance,
                    cpu.flag(29),
                ),
                OffsetShift::Register(place) => {
                    let distance = (cpu.registers[place as int] % 0x100) as u32;
                    let size: int = if cpu.flag(5) { 2 } else { 4 };
                    let shifted = if register == 15 && cpu.pipeline_size < 2 {
                        wrapped(cpu.registers[15] + size) as u32
                    } else {
                        cpu.registers[register as int]
                    };
                    if distance == 0 {
                        cpu.operand(offset) == (shifted, None::<bool>)
                    } else {
                        cpu.operand(offset) == barrel_shifted(
                            shifted,
                            shift_type,
                            distance,
                            cpu.flag(29),
                        )
                    }
                },
            },
        },
{
    if let Offset::ShiftedRegister { register, shift_type, shift } = offset {
        if let OffsetShift::Register(place) = shift {
            lemma_digits_u32(cpu.registers[place as int]);
        }
    }
}

/// A word that is loaded to the program counter is jumped to, and a program counter
/// that is stored is three instructions ahead of the one that stores it.
#[verifier::spinoff_prover]
#[verifier::rlimit(50)]
pub proof fn counter_is_loaded_and_stored<M: MemoryBus>(
    machine: Machine<M::State>,
    cond: u8,
    index: Indexing,
    offset: Offset,
)
    requires
        machine.cpu.well_formed(),
        machine.cpu.condition(cond),
        machine.cpu.pipeline_size == 2,
        !machine.cpu.flag(flags::THUMB),
        index.base < 31,
        index.base != 15,
        offset matches Offset::Immediate { value, carry },
    ensures
        ({
            let here = machine.cpu.fetch_address();
            let base = machine.cpu.registers[index.base as int];
            let address = accessed(base, machine.cpu.operand(offset).0, index) as u32;
            let word = M::word_at(machine.memory, address);
            let loaded = completed::<M>(
                machine,
                cond,
                Instruction::SingleDataTransfer {
                    load: true,
                    index,
                    target: 15,
                    offset,
                    byte: false,
                },
            );
            let stored = completed::<M>(
                machine,
                cond,
                Instruction::SingleDataTransfer {
                    load: false,
                    index,
                    target: 15,
                    offset,
                    byte: false,
                },
            );
            &&& address % 4 == 0 ==> loaded.cpu.fetch_address() == word - word % 4
            &&& stored.memory == M::written(machine.memory, address, wrapped(here + 12) as u32, 4)
        }),
{
    let cpu = CpuState { pipeline_size: 1, ..machine.cpu };
    let value = cpu.operand(offset).0;
    let base = cpu.registers[index.base as int];
    let address = accessed(base, value, index) as u32;
    let word = M::word_at(machine.memory, address);
    lemma_transfer_base(cpu, index, offset, 0);
    lemma_place(machine.cpu);
    let ready = cpu.operand_fetched(offset).indexed(index, value).ticked();
    assert(ready.pc() == cpu.pc().wrapping_add(4));
    lemma_loaded(word, address, false, 0);
    lemma_jump(ready, loaded(word, address, false), 0);
}

/// A result that goes to the program counter is jumped to.
pub proof fn result_in_the_counter_is_a_jump(
    cpu: CpuState,
    opcode: DataProcessingOpcode,
    operand1: usize,
    operand2: Offset,
)
    requires
        cpu.well_formed(),
        operand2.well_formed(),
        !(opcode is TestAnd || opcode is TestXor || opcode is TestSubtract || opcode is TestAdd),
    ensures
        ({
            let after = cpu.processed(
                DataProcessingCpsr::Unchanged,
                opcode,
                operand1,
                operand2,
                15,
            ).ticked();
            let result = computed(
                opcode,
                cpu.operand_fetched(operand2).registers[operand1 as int],
                cpu.operand(operand2).0,
                cpu.flag(flags::CARRY),
            ).value;
            &&& cpu.flag(flags::THUMB) ==> after.fetch_address() == result - result % 2
            &&& !cpu.flag(flags::THUMB) ==> after.fetch_address() == result - result % 4
            &&& after.cpsr == cpu.cpsr
        }),
{
    let fetched = cpu.operand_resolved(operand2, false);
    let result = computed(
        opcode,
        fetched.registers[operand1 as int],
        cpu.operand(operand2).0,
        cpu.flag(flags::CARRY),
    ).value;
    lemma_jump(fetched, result, 0);
}

/// When a call can be executed: the sum of its offset with the link register and the address that is
/// linked must be words. A branch without a link register always can.
pub proof fn calls_must_stay_in_range<M: MemoryBus>(
    machine: Machine<M::State>,
    offset: i32,
    link: usize,
)
    ensures
        ({
            let cpu = machine.cpu;
            let call = Instruction::Branch { offset, link_register: Some(link) };
            &&& executable::<M>(machine, Instruction::Branch { offset, link_register: None })
            &&& cpu.flag(5) && offset >= 0 ==> executable::<M>(machine, call) == (
            cpu.registers[link as int] + offset < 0x1_0000_0000 && cpu.registers[15] > 0)
            &&& !cpu.flag(5) ==> executable::<M>(machine, call) == (cpu.registers[15] >= 4)
        }),
{
}

/// When a status register can be written: always, but for the current one where the bit
/// that selects the instruction width would change.
pub proof fn status_writes_must_keep_the_width<M: MemoryBus>(
    machine: Machine<M::State>,
    spsr: Option<usize>,
    source: Offset,
    mask: u32,
)
    ensures
        executable::<M>(machine, Instruction::StorePsr { spsr, source, mask }) == !(spsr is None
            && mask.has_bit(5) && machine.cpu.operand(source).0.has_bit(5)
            != machine.cpu.cpsr.has_bit(5)),
{
}

/// When a transfer can be executed: where the bus allows the access that it makes.
pub proof fn transfers_must_be_allowed<M: MemoryBus>(
    machine: Machine<M::State>,
    index: Indexing,
    target: usize,
    offset: Offset,
    source: usize,
)
    requires
        machine.cpu.well_formed(),
        index.base < 31,
        index.base != 15,
    ensures
        ({
            let cpu = machine.cpu;
            let memory = machine.memory;
            let base = cpu.registers[index.base as int];
            let address = accessed(base, cpu.operand(offset).0, index) as u32;
            let single = |load: bool, byte: bool|
                executable::<M>(
                    machine,
                    Instruction::SingleDataTransfer { load, index, target, offset, byte },
                );
            let half = |mode: HalfwordDataTransferMode|
                executable::<M>(
                    machine,
                    Instruction::HalfwordDataTransfer { mode, index, target, offset },
                );
            let swap = |byte: bool|
                executable::<M>(
                    machine,
                    Instruction::SingleDataSwap { source, target, base: index.base, byte },
                );
            &&& single(true, false) == M::readable(memory, address)
            &&& single(true, true) == M::readable(memory, address)
            &&& single(false, false) == M::writable(memory, address, 4)
            &&& single(false, true) == M::writable(memory, address, 1)
            &&& half(HalfwordDataTransferMode::StoreHalfword) == M::writable(memory, address, 2)
            &&& half(HalfwordDataTransferMode::LoadUnsignedHalfword) == M::readable(memory, address)
            &&& half(HalfwordDataTransferMode::LoadSignedHalfword) == M::readable(memory, address)
            &&& half(HalfwordDataTransferMode::LoadSignedByte) == M::readable(memory, address)
            &&& swap(false) == (M::readable(memory, base) && M::writable(memory, base, 4))
            &&& swap(true) == (M::readable(memory, base) && M::writable(memory, base, 1))
        }),
{
}

/// When a block transfer can be executed: where the bus allows the access for each of its
/// registers.
pub proof fn block_transfers_must_be_allowed<M: MemoryBus>(
    machine: Machine<M::State>,
    load: bool,
    registers: RegisterList,
    load_spsr: Option<usize>,
    index: Indexing,
    i: int,
)
    requires
        0 <= i < registers.places().len(),
    ensures
        ({
            let start = machine.cpu.block_start(registers, index);
            let address = wrapped(start + 4 * i) as u32;
            let allowed = executable::<M>(
                machine,
                Instruction::BlockDataTransfer { load, registers, load_spsr, index },
            );
            &&& allowed && load ==> M::readable(machine.memory, address)
            &&& allowed && !load ==> M::writable(machine.memory, address, 4)
            &&& load && (forall|place: u32| #[trigger] M::readable(machine.memory, place))
                ==> allowed
            &&& !load && (forall|place: u32| #[trigger] M::writable(machine.memory, place, 4))
                ==> allowed
        }),
{
    let start = machine.cpu.block_start(registers, index);
    registers.lemma_below(16, 16);
    assert(start.wrapping_add((4 * i) as u32) == wrapped(start + 4 * i));
    assert(place_accessible::<M>(machine.memory, load, start, i) == (if load {
        M::readable(machine.memory, wrapped(start + 4 * i) as u32)
    } else {
        M::writable(machine.memory, wrapped(start + 4 * i) as u32, 4)
    }));
}

} // verus!
