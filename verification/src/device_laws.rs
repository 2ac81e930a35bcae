//! What the timers, the channels and the device registers do, as relations between
//! numbers.

use crate::bits::{
    le16, le32, lemma_digits_u16, lemma_digits_u32, lemma_digits_u8, set_bit_is_local_u32, Bits,
};
use crate::dma::{unit_size, DmaChannel};
use crate::interrupts::requested;
use crate::laws::{in_memory, reads_are_aligned, written_part_is_found, written_word_reads_back};
use crate::memory::mapped;
use crate::system::{void_bytes, void_read, void_write, SystemState, VoidAccess};
use crate::timer::{timer_requests, TimerState};
use vstd::arithmetic::power2::pow2;
use vstd::prelude::*;

verus! {

/// The divider of a timer: one, or for the other three selections the sixth, eighth
/// and tenth power of two.
#[verifier::spinoff_prover]
#[verifier::rlimit(50)]
pub proof fn timer_divider_is_a_power(timer: TimerState)
    ensures
        timer.registers[2] % 4 == 0 ==> timer.divider() == 1,
        timer.registers[2] % 4 != 0 ==> timer.divider() == pow2(
            (4 + 2 * (timer.registers[2] % 4)) as nat,
        ),
{
    lemma_digits_u8(timer.registers[2]);
    vstd::arithmetic::power2::lemma2_to64();
}

/// A timer that is switched on counts in the cycles that are multiples of its
/// divider; after the highest count it starts from its reload value, and then asks
/// for its interrupt if that is switched on. Nothing else changes it.
pub proof fn timer_steps(timer: TimerState, cycle: u32)
    ensures
        ({
            let after = timer.stepped(cycle);
            let counts = timer.registers[2].has_bit(7) && cycle as int % timer.divider() as int
                == 0;
            &&& after.registers == timer.registers
            &&& !counts ==> after.current == timer.current
            &&& counts && timer.current < 0xffff ==> after.current == timer.current + 1
            &&& counts && timer.current == 0xffff ==> after.current == le16(timer.registers, 0)
            &&& timer.raises(cycle) == (counts && timer.current == 0xffff
                && timer.registers[2].has_bit(6))
        }),
{
}

/// In each cycle exactly those timers get their interrupts requested that ask for
/// them and whose interrupts are enabled; the first timer has the number 3.
pub proof fn timers_request_their_interrupts(
    timers: Seq<TimerState>,
    registers: u32,
    cycle: u32,
    bit: u32,
)
    requires
        bit < 32,
    ensures
        timer_requests(timers, registers, cycle, 4).has_bit(bit) == (registers.has_bit(bit) || (19
            <= bit < 23 && registers.has_bit((bit - 16) as u32) && timers[bit - 19].raises(cycle))),
{
    let none = registers;
    assert(timer_requests(timers, registers, cycle, 0) == none);
    let first = timer_requests(timers, registers, cycle, 1);
    let second = timer_requests(timers, registers, cycle, 2);
    let third = timer_requests(timers, registers, cycle, 3);
    let fourth = timer_requests(timers, registers, cycle, 4);
    assert(first == if timers[0].raises(cycle) { requested(none, 3) } else { none });
    assert(second == if timers[1].raises(cycle) { requested(first, 4) } else { first });
    assert(third == if timers[2].raises(cycle) { requested(second, 5) } else { second });
    assert(fourth == if timers[3].raises(cycle) { requested(third, 6) } else { third });
    set_bit_is_local_u32(none, 19, true, bit);
    set_bit_is_local_u32(none, 19, true, 4);
    set_bit_is_local_u32(none, 19, true, 5);
    set_bit_is_local_u32(none, 19, true, 6);
    set_bit_is_local_u32(first, 20, true, bit);
    set_bit_is_local_u32(first, 20, true, 5);
    set_bit_is_local_u32(first, 20, true, 6);
    set_bit_is_local_u32(second, 21, true, bit);
    set_bit_is_local_u32(second, 21, true, 6);
    set_bit_is_local_u32(third, 22, true, bit);
}

/// Writing a byte of a timer replaces that byte. The count changes only where bit 6
/// of the last byte becomes set: then it becomes the reload value.
pub proof fn timer_write_replaces_a_byte(timer: TimerState, register: int, value: u8)
    requires
        timer.registers.len() == 4,
        0 <= register < 4,
    ensures
        ({
            let after = timer.written(register, value);
            &&& after.registers == timer.registers.update(register, value)
            &&& after.current == (if register == 3 && value.has_bit(6)
                && !timer.registers[3].has_bit(6) {
                timer.registers[0] + 0x100 * timer.registers[1]
            } else {
                timer.current as int
            })
        }),
{
}

/// The address of the byte that switches a channel on.
pub open spec fn switch_of(channel: int) -> u32 {
    (0x0400_00bb + 0xc * channel) as u32
}

/// Switching a channel on takes its addresses, of 28 bits, and its count from its
/// registers. The last channel copies as many units as its count register says, up
/// to 0xffff, and 0x10000 for zero; the others take the count modulo 0x400, and
/// 0x4000 for zero. A channel that is on already, or that is not switched on by the
/// byte, is left alone, and so are the other channels.
#[verifier::spinoff_prover]
#[verifier::rlimit(50)]
pub proof fn switching_on_takes_addresses_and_count(
    state: SystemState,
    channel: int,
    value: u8,
    other: int,
)
    requires
        state.well_formed(),
        0 <= channel < 4,
        0 <= other < 4,
    ensures
        ({
            let start = 0xb0 + 0xc * channel;
            let after = state.byte_stored(switch_of(channel), value);
            let count = state.io[start + 8] + 0x100 * state.io[start + 9];
            let begins = value >= 0x80 && state.io[start + 0xb] < 0x80;
            &&& begins && channel == 3 && count != 0 ==> after.dma[channel].count == count
            &&& begins && channel == 3 && count == 0 ==> after.dma[channel].count == 0x10000
            &&& begins && channel != 3 && count != 0 ==> after.dma[channel].count == count % 0x400
            &&& begins && channel != 3 && count == 0 ==> after.dma[channel].count == 0x4000
            &&& begins ==> after.dma[channel].source == le32(state.io, start) % 0x1000_0000
            &&& begins ==> after.dma[channel].target == le32(state.io, start + 4) % 0x1000_0000
            &&& begins ==> !after.dma[channel].handled && after.dma[channel].index == channel
            &&& !begins ==> after.dma == state.dma
            &&& other != channel ==> after.dma[other] == state.dma[other]
            &&& after.io == state.io.update(start + 0xb, value)
            &&& after.ppu == state.ppu && after.ram == state.ram
        }),
{
    let start = 0xb0 + 0xc * channel;
    assert(state.dma[channel].index == channel);
    lemma_digits_u32(le32(state.io, start));
    lemma_digits_u32(le32(state.io, start + 4));
    lemma_digits_u32(le16(state.io, start + 8) as u32);
    lemma_top_bit(value);
    lemma_top_bit(state.io[start + 0xb]);
}

proof fn lemma_top_bit(value: u8)
    ensures
        value.has_bit(7) == (value >= 0x80),
{
    crate::bits::bits_are_digits_u8(value, 7);
    vstd::arithmetic::power2::lemma2_to64();
}

/// How an address of a channel moves from unit to unit: on for the kinds 0 and 3,
/// back for the kind 1, not at all for the kind 2.
pub open spec fn direction(kind: int) -> int {
    if kind == 1 {
        -1
    } else if kind == 2 {
        0
    } else {
        1
    }
}

/// A unit of a channel has four bytes where bit 10 of the control register is set,
/// and two otherwise. The unit with a number lies that many units from the start,
/// in the direction that the control register selects for source and target.
#[verifier::spinoff_prover]
#[verifier::rlimit(50)]
pub proof fn units_lie_in_a_row(channel: DmaChannel, control: u16, unit: nat)
    ensures
        ({
            let size: int = if control.has_bit(10) { 4 } else { 2 };
            let source_direction = direction(control as int / 128 % 4);
            let target_direction = direction(control as int / 32 % 4);
            &&& crate::dma::unit_size(control) == size
            &&& channel.source_of(control, unit) == (channel.source + unit * (size
                * source_direction)) % 0x1_0000_0000
            &&& channel.target_of(control, unit) == (channel.target + unit * (size
                * target_direction)) % 0x1_0000_0000
        }),
{
    lemma_digits_u16(control);
}

/// A channel copies where it is switched on, has not used its occasion yet, and the
/// occasion is there: at once, at the first line after the picture, in the pause
/// after a line, or for the last channel alone also in that pause.
#[verifier::spinoff_prover]
#[verifier::rlimit(50)]
pub proof fn channel_copies_at_its_occasion(channel: DmaChannel, state: SystemState)
    ensures
        ({
            let control = channel.control(state.io);
            let timing = control as int / 4096 % 4;
            channel.copies(state) == (control.has_bit(15) && !channel.handled && (timing == 0 || (
            timing == 1 && state.ppu.line == 160) || (timing == 2 && state.ppu.hblank) || (timing
                == 3 && state.ppu.hblank && channel.index == 3)))
        }),
{
    lemma_digits_u16(channel.control(state.io));
}

/// The number of units that the registers of a channel ask for.
pub open spec fn count_in(io: Seq<u8>, channel: int) -> int {
    let count = io[0xb8 + 0xc * channel] + 0x100 * io[0xb9 + 0xc * channel];
    if count == 0 {
        if channel == 3 { 0x10000 } else { 0x4000 }
    } else {
        if channel == 3 { count } else { count % 0x400 }
    }
}

/// After a channel has copied, its source has moved by all units, and its target
/// too unless it repeats with the kind 3, which sets it back. A channel that
/// repeats takes its count from the register again. Both take two cycles for each
/// unit of the new count and two more.
#[verifier::spinoff_prover]
#[verifier::rlimit(50)]
pub proof fn channel_moves_by_its_units(channel: DmaChannel, state: SystemState)
    requires
        state.well_formed(),
        channel.well_formed(),
        channel.copies(state),
    ensures
        ({
            let control = channel.control(state.io);
            let after = channel.channel_after(state);
            let repeats = control.has_bit(9);
            let size: int = if control.has_bit(10) { 4 } else { 2 };
            &&& after.index == channel.index
            &&& after.handled
            &&& after.source == (channel.source + channel.count * (size * direction(
                control as int / 128 % 4,
            ))) % 0x1_0000_0000
            &&& repeats && control as int / 32 % 4 == 3 ==> after.target == channel.target
            &&& !(repeats && control as int / 32 % 4 == 3) ==> after.target == (channel.target
                + channel.count * (size * direction(control as int / 32 % 4))) % 0x1_0000_0000
            &&& !repeats ==> after.count == channel.count
            &&& repeats ==> after.count == count_in(
                channel.copied(state, control, channel.count as nat).io,
                channel.index as int,
            )
            &&& channel.cycles(state) == 2 * after.count + 2
        }),
{
    let control = channel.control(state.io);
    lemma_digits_u16(control);
    units_lie_in_a_row(channel, control, channel.count as nat);
    let copied = channel.copied(state, control, channel.count as nat);
    lemma_digits_u32(le16(copied.io, channel.offset() + 8) as u32);
}

/// Copying one unit more is copying one unit from where the others have led, with the
/// machine that they have left.
pub proof fn units_are_copied_one_by_one(
    channel: DmaChannel,
    state: SystemState,
    control: u16,
    count: nat,
)
    ensures
        channel.copied(state, control, 0) == state,
        channel.copied(state, control, count + 1) == (DmaChannel {
            source: channel.source_of(control, count),
            target: channel.target_of(control, count),
            ..channel
        }).copied(channel.copied(state, control, count), control, 1),
{
    let before = channel.copied(state, control, count);
    let moved = DmaChannel {
        source: channel.source_of(control, count),
        target: channel.target_of(control, count),
        ..channel
    };
    crate::dma::lemma_moved(moved.source, crate::dma::increment(control, 7), 0);
    crate::dma::lemma_moved(moved.target, crate::dma::increment(control, 5), 0);
    assert(moved.copied(before, control, 0) == before);
}

/// A unit of four bytes is the word at the source. A unit of two bytes is the low half
/// of the word that the source lies in. No other byte of memory changes.
#[verifier::spinoff_prover]
#[verifier::rlimit(50)]
pub proof fn unit_is_copied(
    channel: DmaChannel,
    state: SystemState,
    control: u16,
    other: u32,
)
    requires
        state.well_formed(),
        in_memory((channel.target - channel.target % 4) as u32),
        in_memory((channel.target - channel.target % 2) as u32),
        in_memory(other),
    ensures
        ({
            let after = channel.copied(state, control, 1);
            let word = state.word_at((channel.source - channel.source % 4) as u32);
            let start = (channel.target - channel.target % 2) as u32;
            &&& control.has_bit(10) ==> after.word_at(channel.target) == word
            &&& !control.has_bit(10) ==> after.byte_at(start) == word % 0x100 && after.byte_at(
                (start + 1) as u32,
            ) == word / 0x100 % 0x100
            &&& !control.has_bit(10) && mapped(other) != mapped(start) && mapped(other) != mapped(
                (start + 1) as u32,
            ) ==> after.byte_at(other) == state.byte_at(other)
        }),
{
    crate::dma::lemma_moved(channel.source, crate::dma::increment(control, 7), 0);
    crate::dma::lemma_moved(channel.target, crate::dma::increment(control, 5), 0);
    assert(channel.copied(state, control, 0) == state);
    reads_are_aligned(state, channel.source);
    let word = state.word_at(channel.source);
    lemma_digits_u32(channel.target);
    if control.has_bit(10) {
        written_word_reads_back(state, channel.target, word, channel.target);
    } else {
        written_part_is_found(state, channel.target, word, 2, other);
    }
}

/// A channel that does not repeat clears the switch in its control register and
/// keeps the rest of it; one that repeats leaves it as the copying has left it. The
/// interrupt of a channel is requested where its control register asks for it and
/// it is enabled; the first channel has the number 8.
pub proof fn channel_ends(channel: DmaChannel, state: SystemState, bit: u32)
    requires
        state.well_formed(),
        channel.well_formed(),
        channel.copies(state),
        bit < 32,
    ensures
        ({
            let control = channel.control(state.io);
            let copied = channel.copied(state, control, channel.count as nat);
            let after = channel.state_after(state);
            let place = 0xb0 + 0xc * channel.index + 0xb;
            &&& control.has_bit(9) ==> after.io == copied.io
            &&& !control.has_bit(9) ==> after.io == copied.io.update(
                place,
                (state.io[place] - 0x80) as u8,
            )
            &&& after.interrupts.has_bit(bit) == (copied.interrupts.has_bit(bit) || (bit == 24
                + channel.index && control.has_bit(14) && copied.interrupts.has_bit(
                (8 + channel.index) as u32,
            )))
            &&& after.ram == copied.ram && after.ppu == copied.ppu && after.timers
                == copied.timers && after.dma == copied.dma
        }),
{
    let control = channel.control(state.io);
    let copied = channel.copied(state, control, channel.count as nat);
    let place = 0xb0 + 0xc * channel.index + 0xb;
    lemma_switch_cleared(control, state.io[place - 1], state.io[place]);
    set_bit_is_local_u32(copied.interrupts, (24 + channel.index) as u32, true, bit);
}

proof fn lemma_switch_cleared(control: u16, low: u8, high: u8)
    requires
        control == low + 0x100 * high,
        control.has_bit(15),
    ensures
        high >= 0x80,
        (control.with_bit(15, false) >> 8) as u8 == high - 0x80,
{
    assert(high >= 0x80 && ((control & !(1u16 << 15)) >> 8) as u8 == high - 0x80) by (bit_vector)
        requires
            control == low + 0x100 * high,
            control & (1u16 << 15) != 0,
    ;
}

/// What reading the device registers gives: the count and control of the timers, the
/// buttons, both interrupt registers, and the bytes that were written elsewhere.
#[verifier::spinoff_prover]
#[verifier::rlimit(50)]
pub proof fn device_registers_show_the_devices(state: SystemState, offset: u32)
    requires
        0x60 <= offset < 0x3ff,
        offset % 4 == 0,
    ensures
        ({
            let word = state.word_at((0x0400_0000 + offset) as u32);
            &&& 0x100 <= offset < 0x110 ==> word == state.timers[(offset - 0x100) / 4].shown()
            &&& offset == 0x130 ==> word == crate::keys::buttons(state.pressed_keys)
            &&& offset == 0x200 ==> word == state.interrupts
            &&& !(0x100 <= offset < 0x110) && offset != 0x130 && offset != 0x200 ==> word == le32(
                state.io,
                offset as int,
            )
        }),
{
    lemma_digits_u32((0x0400_0000 + offset) as u32);
}

/// Where a byte goes that is written to the device registers: to a timer, to the
/// interrupt registers, to the switch that pauses the processor, or to the byte
/// itself. No other part of the machine changes.
pub proof fn device_registers_reach_the_devices(state: SystemState, offset: u32, value: u8)
    requires
        state.well_formed(),
        0x60 <= offset < 0x3ff,
        offset != 0xbb,
        offset != 0xc7,
        offset != 0xd3,
        offset != 0xdf,
    ensures
        ({
            let after = state.byte_stored((0x0400_0000 + offset) as u32, value);
            if 0x100 <= offset < 0x110 {
                after == (SystemState {
                    timers: state.timers.update(
                        offset / 4 - 64,
                        state.timers[offset / 4 - 64].written((offset % 4) as int, value),
                    ),
                    ..state
                })
            } else if 0x200 <= offset < 0x204 {
                after == (SystemState { interrupts: after.interrupts, ..state })
            } else if offset == 0x301 {
                after == (SystemState { cpu_paused: true, ..state })
            } else {
                after == (SystemState { io: state.io.update(offset as int, value), ..state })
            }
        }),
{
}

/// The registers of the picture unit are reached at the first 0x60 addresses of the
/// registers, and nothing else changes with them.
#[verifier::spinoff_prover]
#[verifier::rlimit(50)]
pub proof fn picture_registers_are_reached(state: SystemState, offset: u32, value: u8)
    requires
        offset < 0x60,
    ensures
        state.byte_stored((0x0400_0000 + offset) as u32, value) == (SystemState {
            ppu: state.ppu.register_written(offset, value),
            ..state
        }),
        offset % 4 == 0 ==> state.word_at((0x0400_0000 + offset) as u32)
            == state.ppu.register_word(offset),
{
    lemma_digits_u32((0x0400_0000 + offset) as u32);
}

/// A byte cannot be written to the start-up program and the three views of the
/// cartridge, and can be written everywhere else.
pub proof fn only_read_only_memory_refuses_bytes(address: u32)
    ensures
        crate::system::byte_writable(address) == !(address < 0x4000 || 0x0800_0000 <= address
            < 0x0e00_0000),
{
}

/// A word can be read everywhere, but for a start-up program that is too short and for
/// a word that the end of the cartridge cuts.
#[verifier::spinoff_prover]
#[verifier::rlimit(50)]
pub proof fn words_can_be_read(state: SystemState, address: u32)
    requires
        state.rom.len() <= u32::MAX,
    ensures
        ({
            let start = (address - address % 4) as int;
            state.readable(address) == (if start < 0x4000 {
                start + 4 <= state.bios.len()
            } else if 0x0800_0000 <= start < 0x0e00_0000 {
                start % 0x0200_0000 + 4 <= state.rom.len() || start % 0x0200_0000
                    >= state.rom.len()
            } else {
                true
            })
        }),
{
    lemma_digits_u32(address);
}

/// Reading is a void access exactly where no memory holds the word, and writing is one
/// for each byte that no memory takes.
#[verifier::spinoff_prover]
#[verifier::rlimit(50)]
pub proof fn void_accesses_meet_no_memory(address: u32, size: u8, other: u32)
    requires
        size == 1 || size == 2 || size == 4,
    ensures
        ({
            let word = (address - address % 4) as u32;
            let start = (address - address % (size as u32)) as u32;
            &&& mapped(word) is Some ==> void_read(address).len() == 0
            &&& mapped(word) is None ==> void_read(address) == seq![VoidAccess::Read(word)]
            &&& void_write(address, size).contains(VoidAccess::Write(other)) == (start <= other
                < start + size && mapped(other) is None)
            &&& !void_write(address, size).contains(VoidAccess::Read(other))
        }),
{
    lemma_digits_u32(address);
    lemma_aligned_down(address, size);
    lemma_void_bytes((address - address % (size as u32)) as u32, size as nat, other);
}

#[verifier::spinoff_prover]
#[verifier::rlimit(50)]
proof fn lemma_aligned_down(address: u32, size: u8)
    requires
        size == 1 || size == 2 || size == 4,
    ensures
        crate::system::aligned(address, size) == address - address % (size as u32),
        address - address % (size as u32) + size <= 0x1_0000_0000,
{
    lemma_digits_u32(address);
    crate::laws::lemma_low_bytes(0, address);
    crate::system::lemma_aligned(address, size);
}

proof fn lemma_void_bytes(start: u32, count: nat, other: u32)
    requires
        start + count <= 0x1_0000_0000,
    ensures
        void_bytes(start, count).contains(VoidAccess::Write(other)) == (start <= other < start
            + count && mapped(other) is None),
        !void_bytes(start, count).contains(VoidAccess::Read(other)),
    decreases count,
{
    if count > 0 {
        let before = void_bytes(start, (count - 1) as nat);
        let address = (start + count - 1) as u32;
        lemma_void_bytes(start, (count - 1) as nat, other);
        if mapped(address) is None {
            let after = before.push(VoidAccess::Write(address));
            assert(after.last() == VoidAccess::Write(address));
            if before.contains(VoidAccess::Write(other)) {
                let i = choose|i: int| 0 <= i < before.len() && before[i] == VoidAccess::Write(other);
                assert(after[i] == VoidAccess::Write(other));
            }
            if after.contains(VoidAccess::Read(other)) {
                let i = choose|i: int| 0 <= i < after.len() && after[i] == VoidAccess::Read(other);
                assert(before[i] == VoidAccess::Read(other));
            }
            if after.contains(VoidAccess::Write(other)) && other != address {
                let i = choose|i: int| 0 <= i < after.len() && after[i] == VoidAccess::Write(other);
                assert(before[i] == VoidAccess::Write(other));
            }
        }
    }
}

/// The channels are run in the order of their numbers, each as it was before the first
/// was run, and with the machine that those before it have left. Their cycles add up.
pub proof fn channels_run_in_order(state: SystemState)
    ensures
        ({
            let first = state.channel_run(state.dma[0]);
            let second = first.channel_run(state.dma[1]);
            let third = second.channel_run(state.dma[2]);
            let fourth = third.channel_run(state.dma[3]);
            &&& state.channels_run(4) == fourth
            &&& state.channel_cycles(4) == state.dma[0].cycles(state) + state.dma[1].cycles(first)
                + state.dma[2].cycles(second) + state.dma[3].cycles(third)
            &&& state.channel_voids(4) == state.dma[0].void_accesses(state)
                + state.dma[1].void_accesses(first) + state.dma[2].void_accesses(second)
                + state.dma[3].void_accesses(third)
        }),
{
    reveal_with_fuel(SystemState::channels_run, 5);
    reveal_with_fuel(SystemState::channel_cycles, 5);
    reveal_with_fuel(SystemState::channel_voids, 5);
}

/// In every cycle the picture unit and the four timers make one step each. The picture
/// unit requests its interrupts before the timers.
pub proof fn devices_step_together(state: SystemState, cycle: u32, timer: int)
    requires
        state.timers.len() == 4,
        0 <= timer < 4,
    ensures
        ({
            let after = state.devices_stepped(cycle);
            &&& after.ppu == state.ppu.stepped()
            &&& after.timers.len() == 4
            &&& after.timers[timer] == state.timers[timer].stepped(cycle)
            &&& after.interrupts == timer_requests(
                state.timers,
                state.ppu.requests(state.interrupts),
                cycle,
                4,
            )
            &&& after.ram == state.ram
            &&& after.io == state.io
            &&& after.dma == state.dma
            &&& after.pressed_keys == state.pressed_keys
            &&& after.cpu_paused == state.cpu_paused
        }),
{
}

/// When a channel can be run. Only the last one may be switched on for its own occasion.
/// One that copies must not wait for the cartridge, and each of its units must lie where
/// it can be read and written; one that does not copy can be run.
#[verifier::spinoff_prover]
#[verifier::rlimit(50)]
pub proof fn channel_can_be_run(channel: DmaChannel, state: SystemState, unit: int)
    requires
        state.well_formed(),
        channel.well_formed(),
    ensures
        ({
            let control = (state.io[0xba + 0xc * channel.index] + 0x100 * state.io[0xbb + 0xc
                * channel.index]) as u16;
            let misused = control.has_bit(15) && control as int / 4096 % 4 == 3 && channel.index
                != 3;
            let size = unit_size(control);
            &&& misused ==> !channel.runnable(state)
            &&& !misused && !channel.copies(state) ==> channel.runnable(state)
            &&& channel.copies(state) && control.has_bit(11) ==> !channel.runnable(state)
            &&& channel.copies(state) && channel.runnable(state) && 0 <= unit < channel.count
                ==> state.readable(
                channel.source_of(control, unit as nat),
            ) && state.writable(channel.target_of(control, unit as nat), size)
            &&& !misused && !control.has_bit(11) && (forall|i: int|
                0 <= i < channel.count ==> state.readable(
                    #[trigger] channel.source_of(control, i as nat),
                ) && state.writable(channel.target_of(control, i as nat), size))
                ==> channel.runnable(state)
        }),
{
    let control = channel.control(state.io);
    lemma_digits_u16(control);
    assert(channel.runnable(state) && channel.copies(state) && 0 <= unit < channel.count
        ==> channel.unit_accessible(state, unit));
    if forall|i: int|
        0 <= i < channel.count ==> state.readable(#[trigger] channel.source_of(control, i as nat))
            && state.writable(channel.target_of(control, i as nat), unit_size(control)) {
        assert forall|i: int| 0 <= i < channel.count implies #[trigger] channel.unit_accessible(
            state,
            i,
        ) by {
            let source = channel.source_of(control, i as nat);
        }
    }
}

} // verus!
