//! What holds of the machine as a whole.

use crate::bits::{le32, lemma_digits_u32, Bits};
use crate::cpu::arithmetic::rotated_right;
use crate::cpu::instruction::{Indexing, Instruction, Offset};
use crate::cpu::model::{block_moved, executed, CpuState, Machine};
use crate::dma::{moved, unit_size, DmaChannel};
use crate::memory::{aligned_word_in_one_region, mapped, mapped_offset_in_region, MemoryRegion};
use crate::system::{aligned, byte_writable, System, SystemState};
use crate::timer::TimerState;
use vstd::prelude::*;

verus! {

/// Whether a region is a memory that keeps what is written to it.
pub open spec fn keeps_bytes(region: MemoryRegion) -> bool {
    region == MemoryRegion::Ram || region == MemoryRegion::Palette || region == MemoryRegion::Vram
        || region == MemoryRegion::Oam
}

/// Whether an address leads to a memory that keeps what is written to it.
pub open spec fn in_memory(address: u32) -> bool {
    match mapped(address) {
        Some((region, offset)) => keeps_bytes(region),
        None => false,
    }
}

impl SystemState {
    /// The bytes of a memory.
    pub open spec fn memory(self, region: MemoryRegion) -> Seq<u8> {
        match region {
            MemoryRegion::Ram => self.ram,
            MemoryRegion::Palette => self.ppu.palettes,
            MemoryRegion::Vram => self.ppu.vram,
            MemoryRegion::Oam => self.ppu.oam,
            MemoryRegion::Bios => self.bios,
            MemoryRegion::Rom => self.rom,
            MemoryRegion::IO => self.io,
            MemoryRegion::PPURegister => self.ppu.registers,
        }
    }

    /// The byte of memory at an address.
    pub open spec fn byte_at(self, address: u32) -> u8 {
        match mapped(address) {
            Some((region, offset)) => self.memory(region)[offset as int],
            None => 0,
        }
    }
}

/// A byte that is written to memory can be found at every address that leads
/// to the same place, and no other byte of memory changes.
pub proof fn written_byte_is_found(state: SystemState, address: u32, value: u8, other: u32)
    requires
        state.well_formed(),
        byte_writable(address),
        in_memory(other),
    ensures
        state.byte_stored(address, value).byte_at(other) == (if mapped(address) == mapped(other) {
            value
        } else {
            state.byte_at(other)
        }),
{
    mapped_offset_in_region(other);
    if mapped(address) is Some {
        mapped_offset_in_region(address);
    }
}

/// The bytes of a word make up the word.
proof fn lemma_word_of_bytes(value: u32)
    ensures
        ((value >> 0u32) as u8) + 0x100 * ((value >> 8u32) as u8) + 0x1_0000 * ((value
            >> 16u32) as u8) + 0x100_0000 * ((value >> 24u32) as u8) == value,
{
    assert(((value >> 0u32) as u8) + 0x100 * ((value >> 8u32) as u8) + 0x1_0000 * ((value
        >> 16u32) as u8) + 0x100_0000 * ((value >> 24u32) as u8) == value) by (bit_vector);
}

/// A memory with a word replaced.
pub open spec fn word_replaced(memory: Seq<u8>, offset: int, value: u32) -> Seq<u8> {
    memory.update(offset, (value >> 0u32) as u8).update(offset + 1, (value >> 8u32) as u8).update(
        offset + 2,
        (value >> 16u32) as u8,
    ).update(offset + 3, (value >> 24u32) as u8)
}

/// Writing a word to memory replaces that word in its memory, and leaves the
/// other memories alone.
pub proof fn word_is_replaced(state: SystemState, address: u32, value: u32, region: MemoryRegion)
    requires
        state.well_formed(),
        in_memory(aligned(address, 4)),
        keeps_bytes(region),
    ensures
        state.stored(address, value, 4).memory(region) == (if region == (mapped(
            aligned(address, 4),
        )->0).0 {
            word_replaced(
                state.memory(region),
                (mapped(aligned(address, 4))->0).1 as int,
                value,
            )
        } else {
            state.memory(region)
        }),
{
    let start = aligned(address, 4);
    lemma_aligned_four(address);
    aligned_word_in_one_region(start, 1);
    aligned_word_in_one_region(start, 2);
    aligned_word_in_one_region(start, 3);
    mapped_offset_in_region(start);
    reveal_with_fuel(SystemState::bytes_stored, 5);
}

/// What is read of a memory is the word at the offset.
proof fn lemma_memory_word(state: SystemState, address: u32)
    requires
        in_memory(aligned(address, 4)),
    ensures
        state.word_at(address) == le32(
            state.memory((mapped(aligned(address, 4))->0).0),
            (mapped(aligned(address, 4))->0).1 as int,
        ),
{
}

/// The place of an aligned word is a multiple of four inside its memory.
proof fn lemma_word_place(state: SystemState, address: u32)
    requires
        state.well_formed(),
        in_memory(aligned(address, 4)),
    ensures
        (mapped(aligned(address, 4))->0).1 % 4 == 0,
        (mapped(aligned(address, 4))->0).1 + 3 < state.memory(
            (mapped(aligned(address, 4))->0).0,
        ).len(),
{
    lemma_aligned_four(address);
    mapped_offset_in_region(aligned(address, 4));
    crate::memory::mapped_offset_is_aligned(aligned(address, 4));
}

/// A word reads back from a memory in which it was replaced, and other words
/// stay.
proof fn lemma_word_replaced(memory: Seq<u8>, offset: int, value: u32, other: int)
    requires
        offset % 4 == 0,
        other % 4 == 0,
        0 <= offset < memory.len() - 3,
        0 <= other < memory.len() - 3,
    ensures
        le32(word_replaced(memory, offset, value), other) == (if other == offset {
            value
        } else {
            le32(memory, other)
        }),
{
    lemma_word_of_bytes(value);
    assert(other != offset ==> other + 4 <= offset || offset + 4 <= other);
}

/// A word that is written to memory reads back, at the same address and at
/// every other address of the same word.
pub proof fn written_word_reads_back(state: SystemState, address: u32, value: u32, other: u32)
    requires
        state.well_formed(),
        in_memory(aligned(address, 4)),
        mapped(aligned(other, 4)) == mapped(aligned(address, 4)),
    ensures
        state.stored(address, value, 4).word_at(other) == value,
{
    let (region, offset) = mapped(aligned(address, 4))->0;
    word_is_replaced(state, address, value, region);
    lemma_memory_word(state.stored(address, value, 4), other);
    lemma_word_place(state, address);
    lemma_word_replaced(state.memory(region), offset as int, value, offset as int);
}

/// A word that is written to memory leaves every other word of memory alone.
pub proof fn other_words_stay(state: SystemState, address: u32, value: u32, other: u32)
    requires
        state.well_formed(),
        in_memory(aligned(address, 4)),
        in_memory(aligned(other, 4)),
        mapped(aligned(other, 4)) != mapped(aligned(address, 4)),
    ensures
        state.stored(address, value, 4).word_at(other) == state.word_at(other),
{
    let (region, offset) = mapped(aligned(address, 4))->0;
    let (far_region, far_offset) = mapped(aligned(other, 4))->0;
    word_is_replaced(state, address, value, far_region);
    lemma_memory_word(state.stored(address, value, 4), other);
    lemma_memory_word(state, other);
    lemma_word_place(state, address);
    lemma_word_place(state, other);
    if region == far_region {
        lemma_word_replaced(state.memory(region), offset as int, value, far_offset as int);
    }
}

proof fn lemma_aligned_four(address: u32)
    ensures
        aligned(address, 4) % 4 == 0,
        aligned(address, 4) <= 0xffff_fffc,
{
    assert((address & !3u32) % 4 == 0 && (address & !3u32) <= 0xffff_fffc) by (bit_vector);
}

/// A byte or half word that is written to memory can be found there byte by byte, the
/// low byte first, at the address rounded down to its size; no other byte of memory
/// changes.
#[verifier::spinoff_prover]
#[verifier::rlimit(50)]
pub proof fn written_part_is_found(
    state: SystemState,
    address: u32,
    value: u32,
    size: u8,
    other: u32,
)
    requires
        state.well_formed(),
        size == 1 || size == 2,
        in_memory((address - address % (size as u32)) as u32),
        in_memory(other),
    ensures
        ({
            let start = (address - address % (size as u32)) as u32;
            let after = state.stored(address, value, size);
            &&& after.byte_at(start) == value % 0x100
            &&& size == 2 ==> after.byte_at((start + 1) as u32) == value / 0x100 % 0x100
            &&& mapped(other) != mapped(start) && (size == 2 ==> mapped(other) != mapped(
                (start + 1) as u32,
            )) ==> after.byte_at(other) == state.byte_at(other)
        }),
{
    let start = (address - address % (size as u32)) as u32;
    let next = (start + 1) as u32;
    lemma_digits_u32(address);
    lemma_low_bytes(value, address);
    reveal_with_fuel(SystemState::bytes_stored, 3);
    let first = state.byte_stored(start, value as u8);
    written_byte_is_found(state, start, value as u8, start);
    written_byte_is_found(state, start, value as u8, other);
    if size == 2 {
        lemma_neighbours(start);
        crate::system::lemma_byte_stored(state, start, value as u8);
        written_byte_is_found(first, next, (value >> 8u32) as u8, next);
        written_byte_is_found(first, next, (value >> 8u32) as u8, start);
        written_byte_is_found(first, next, (value >> 8u32) as u8, other);
    }
}

pub(crate) proof fn lemma_low_bytes(value: u32, address: u32)
    ensures
        value as u8 == value % 0x100,
        (value >> 0u32) as u8 == value % 0x100,
        (value >> 8u32) as u8 == value / 0x100 % 0x100,
        address & !0u32 == address,
{
    assert(value as u8 == value % 0x100 && (value >> 0u32) as u8 == value % 0x100 && (value
        >> 8u32) as u8 == value / 0x100 % 0x100 && address & !0u32 == address) by (bit_vector);
}

/// The two bytes of an aligned half word in memory lie beside each other.
proof fn lemma_neighbours(start: u32)
    requires
        start % 2 == 0,
        in_memory(start),
    ensures
        start < 0xffff_ffff,
        in_memory((start + 1) as u32),
        mapped((start + 1) as u32) != mapped(start),
{
    crate::memory::neighbours_lie_together(start);
}

/// Reading leads to the word that the address lies in, wherever in it that is.
#[verifier::spinoff_prover]
#[verifier::rlimit(50)]
pub proof fn reads_are_aligned(state: SystemState, address: u32)
    ensures
        state.word_at(address) == state.word_at((address - address % 4) as u32),
{
    lemma_digits_u32(address);
    lemma_digits_u32((address - address % 4) as u32);
}

/// What reading the start-up program and the cartridge gives: their bytes, the lowest
/// first, and zero beyond the end of the cartridge.
#[verifier::spinoff_prover]
#[verifier::rlimit(50)]
pub proof fn read_only_words_are_their_bytes(state: SystemState, offset: u32)
    requires
        offset % 4 == 0,
    ensures
        offset < 0x4000 ==> state.word_at(offset) == le32(state.bios, offset as int),
        offset < 0x0200_0000 && offset < state.rom.len() as u32 ==> state.word_at(
            (0x0800_0000 + offset) as u32,
        ) == le32(state.rom, offset as int),
        offset < 0x0200_0000 && offset >= state.rom.len() as u32 ==> state.word_at(
            (0x0800_0000 + offset) as u32,
        ) == 0,
{
    lemma_digits_u32(offset);
    lemma_digits_u32((0x0800_0000 + offset) as u32);
}

/// The address of one of the words of a block transfer.
pub open spec fn block_word(start: u32, i: int) -> u32 {
    start.wrapping_add((4 * i) as u32)
}

/// Whether the words of a block transfer lie in memory, each at another place.
pub open spec fn block_in_memory(start: u32, count: nat) -> bool {
    &&& forall|i: int| 0 <= i < count ==> in_memory(aligned(#[trigger] block_word(start, i), 4))
    &&& forall|i: int, j: int|
        0 <= i < j < count ==> mapped(aligned(#[trigger] block_word(start, i), 4)) != mapped(
            aligned(#[trigger] block_word(start, j), 4),
        )
}

/// Registers that have been stored to memory come back when they are loaded
/// from there, whatever the processor has done to its registers since.
pub proof fn loaded_registers_are_those_stored(
    machine: Machine<SystemState>,
    later: CpuState,
    places: Seq<usize>,
    start: u32,
    i: int,
)
    requires
        machine.memory.well_formed(),
        later.well_formed(),
        0 <= i < places.len(),
        block_in_memory(start, places.len()),
        forall|j: int| 0 <= j < places.len() ==> (#[trigger] places[j]) < 31 && places[j] != 15,
        places.no_duplicates(),
    ensures
        ({
            let stored = block_moved::<System>(machine, false, places, start, places.len());
            let loaded = block_moved::<System>(
                Machine { cpu: later, memory: stored.memory },
                true,
                places,
                start,
                places.len(),
            );
            loaded.cpu.registers[places[i] as int] == machine.cpu.registers[places[i] as int]
        }),
{
    registers_are_stored_in_a_row(machine, places, start, places.len());
    let stored = block_moved::<System>(machine, false, places, start, places.len());
    assert(stored.memory.word_at(block_word(start, i)) == machine.cpu.registers[places[i] as int]);
    registers_are_loaded_in_a_row(
        Machine { cpu: later, memory: stored.memory },
        places,
        start,
        places.len(),
        i,
    );
}

/// The registers of a block transfer are stored to words that follow each other, in
/// the order of the list, and the processor stays as it is.
pub proof fn registers_are_stored_in_a_row(
    machine: Machine<SystemState>,
    places: Seq<usize>,
    start: u32,
    count: nat,
)
    requires
        machine.memory.well_formed(),
        count <= places.len(),
        block_in_memory(start, places.len()),
    ensures
        ({
            let stored = block_moved::<System>(machine, false, places, start, count);
            &&& stored.memory.well_formed()
            &&& stored.cpu == machine.cpu
            &&& forall|j: int|
                0 <= j < count ==> stored.memory.word_at(#[trigger] block_word(start, j))
                    == machine.cpu.registers[places[j] as int]
        }),
    decreases count,
{
    if count > 0 {
        let n = (count - 1) as nat;
        registers_are_stored_in_a_row(machine, places, start, n);
        let before = block_moved::<System>(machine, false, places, start, n);
        let stored = block_moved::<System>(machine, false, places, start, count);
        let address = block_word(start, n as int);
        let value = before.cpu.registers[places[n as int] as int];
        assert(stored.memory == before.memory.stored(address, value, 4));
        crate::system::lemma_stored(before.memory, address, value, 4);
        assert forall|j: int| 0 <= j < count implies stored.memory.word_at(
            #[trigger] block_word(start, j),
        ) == machine.cpu.registers[places[j] as int] by {
            if j == n {
                written_word_reads_back(before.memory, address, value, address);
            } else {
                other_words_stay(before.memory, address, value, block_word(start, j));
            }
        }
    }
}

/// The registers of a block transfer are loaded from words that follow each other,
/// in the order of the list, and memory stays as it is.
pub proof fn registers_are_loaded_in_a_row(
    machine: Machine<SystemState>,
    places: Seq<usize>,
    start: u32,
    count: nat,
    i: int,
)
    requires
        machine.cpu.well_formed(),
        0 <= i < places.len(),
        count <= places.len(),
        forall|j: int| 0 <= j < places.len() ==> (#[trigger] places[j]) < 31 && places[j] != 15,
        places.no_duplicates(),
    ensures
        ({
            let loaded = block_moved::<System>(machine, true, places, start, count);
            &&& loaded.memory == machine.memory
            &&& loaded.cpu.well_formed()
            &&& i < count ==> loaded.cpu.registers[places[i] as int] == machine.memory.word_at(
                block_word(start, i),
            )
        }),
    decreases count,
{
    if count > 0 {
        let n = (count - 1) as nat;
        registers_are_loaded_in_a_row(machine, places, start, n, i);
        assert(places[n as int] < 31 && places[n as int] != 15);
        assert(places[i] < 31 && places[i] != 15);
    }
}

/// A word that one register has been stored from is loaded to another one as it
/// was, rotated so that the addressed byte comes first.
pub proof fn stored_word_loads_back(
    machine: Machine<SystemState>,
    base: usize,
    offset: u32,
    subtract: bool,
    source: usize,
    target: usize,
)
    requires
        machine.cpu.well_formed(),
        machine.memory.well_formed(),
        base < 31,
        base != 15,
        source < 31,
        source != 15,
        target < 31,
        target != 15,
        ({
            let index = Indexing { base, modify_first: true, subtract, write_back: false };
            in_memory(aligned(machine.cpu.indexed_address(index, offset), 4))
        }),
    ensures
        ({
            let index = Indexing { base, modify_first: true, subtract, write_back: false };
            let operand = Offset::Immediate { value: offset, carry: None };
            let address = machine.cpu.indexed_address(index, offset);
            let stored = executed::<System>(
                machine,
                Instruction::SingleDataTransfer {
                    load: false,
                    index,
                    target: source,
                    offset: operand,
                    byte: false,
                },
            );
            let loaded = executed::<System>(
                stored,
                Instruction::SingleDataTransfer {
                    load: true,
                    index,
                    target,
                    offset: operand,
                    byte: false,
                },
            );
            loaded.cpu.registers[target as int] == rotated_right(
                machine.cpu.registers[source as int],
                (8 * (address % 4)) as u32,
            )
        }),
{
    let index = Indexing { base, modify_first: true, subtract, write_back: false };
    let address = machine.cpu.indexed_address(index, offset);
    let value = machine.cpu.registers[source as int];
    written_word_reads_back(machine.memory, address, value, address);
}

/// Nothing can be written where nothing is mapped, and what is read there is
/// zero.
pub proof fn unmapped_addresses_are_void(state: SystemState, address: u32, value: u8)
    requires
        mapped(address) is None,
        mapped(aligned(address, 4)) is None,
    ensures
        state.byte_stored(address, value) == state,
        state.word_at(address) == 0,
{
}

/// No write changes the start-up program or the cartridge.
pub proof fn read_only_memories_stay(state: SystemState, address: u32, value: u32, size: u8)
    requires
        state.well_formed(),
    ensures
        state.stored(address, value, size).bios == state.bios,
        state.stored(address, value, size).rom == state.rom,
{
    crate::system::lemma_stored(state, address, value, size);
}

/// A channel that does not copy leaves the machine alone and takes no time.
pub proof fn idle_channel_does_nothing(channel: DmaChannel, state: SystemState)
    requires
        !channel.copies(state),
    ensures
        channel.state_after(state) == state,
        channel.cycles(state) == 0,
{
}

/// A channel copies once for each occasion: having copied, it does not copy
/// again until its occasion has passed.
pub proof fn channel_copies_once(channel: DmaChannel, state: SystemState, later: SystemState)
    requires
        channel.copies(state),
    ensures
        !channel.channel_after(state).copies(later),
        channel.channel_after(state).control(later.io).has_bit(15) && !channel.channel_after(
            state,
        ).is_due(later) ==> !channel.channel_after(state).channel_after(later).handled,
{
}

/// Whether an address leads to a memory, be it one that can only be read.
pub open spec fn holds_words(address: u32) -> bool {
    match mapped(aligned(address, 4)) {
        Some((region, offset)) => keeps_bytes(region) || region == MemoryRegion::Bios || region
            == MemoryRegion::Rom,
        None => false,
    }
}

/// Whether a channel copies words from memory to memory, each to a place of its
/// own that none of them is copied from.
pub open spec fn copies_apart(channel: DmaChannel, control: u16, count: nat) -> bool {
    &&& control.has_bit(10)
    &&& forall|j: nat|
        j < count ==> in_memory(aligned(#[trigger] channel.target_of(control, j), 4))
    &&& forall|j: nat| j < count ==> holds_words(#[trigger] channel.source_of(control, j))
    &&& forall|j: nat, k: nat|
        j < count && k < count ==> mapped(aligned(#[trigger] channel.source_of(control, j), 4))
            != mapped(aligned(#[trigger] channel.target_of(control, k), 4))
    &&& forall|j: nat, k: nat|
        j < k < count ==> mapped(aligned(#[trigger] channel.target_of(control, j), 4)) != mapped(
            aligned(#[trigger] channel.target_of(control, k), 4),
        )
}

proof fn lemma_held_word_stays(state: SystemState, address: u32, value: u32, other: u32)
    requires
        state.well_formed(),
        in_memory(aligned(address, 4)),
        holds_words(other),
        mapped(aligned(other, 4)) != mapped(aligned(address, 4)),
    ensures
        state.stored(address, value, 4).word_at(other) == state.word_at(other),
{
    if in_memory(aligned(other, 4)) {
        other_words_stay(state, address, value, other);
    } else {
        read_only_memories_stay(state, address, value, 4);
    }
}

proof fn lemma_sources_stay(
    channel: DmaChannel,
    state: SystemState,
    control: u16,
    count: nat,
    part: nat,
    unit: nat,
)
    requires
        state.well_formed(),
        copies_apart(channel, control, count),
        part <= count,
        unit < count,
    ensures
        channel.copied(state, control, part).word_at(channel.source_of(control, unit))
            == state.word_at(channel.source_of(control, unit)),
    decreases part,
{
    if part > 0 {
        let last = (part - 1) as nat;
        lemma_sources_stay(channel, state, control, count, last, unit);
        crate::dma::lemma_copied(channel, state, control, last);
        let before = channel.copied(state, control, last);
        lemma_held_word_stays(
            before,
            channel.target_of(control, last),
            before.word_at(channel.source_of(control, last)),
            channel.source_of(control, unit),
        );
    }
}

/// Every word that a channel copies is found at its target afterwards.
pub proof fn copied_words_are_found(
    channel: DmaChannel,
    state: SystemState,
    control: u16,
    count: nat,
    unit: nat,
)
    requires
        state.well_formed(),
        copies_apart(channel, control, count),
        unit < count,
    ensures
        channel.copied(state, control, count).word_at(channel.target_of(control, unit))
            == state.word_at(channel.source_of(control, unit)),
{
    lemma_copied_words(channel, state, control, count, count, unit);
}

proof fn lemma_copied_words(
    channel: DmaChannel,
    state: SystemState,
    control: u16,
    count: nat,
    part: nat,
    unit: nat,
)
    requires
        state.well_formed(),
        copies_apart(channel, control, count),
        unit < part <= count,
    ensures
        channel.copied(state, control, part).word_at(channel.target_of(control, unit))
            == state.word_at(channel.source_of(control, unit)),
    decreases part,
{
    let last = (part - 1) as nat;
    let before = channel.copied(state, control, last);
    let target = channel.target_of(control, last);
    let value = before.word_at(channel.source_of(control, last));
    crate::dma::lemma_copied(channel, state, control, last);
    lemma_sources_stay(channel, state, control, count, last, last);
    if unit == last {
        written_word_reads_back(before, target, value, target);
    } else {
        lemma_copied_words(channel, state, control, count, last, unit);
        other_words_stay(before, target, value, channel.target_of(control, unit));
    }
}

proof fn lemma_copying_keeps_the_time(
    channel: DmaChannel,
    state: SystemState,
    control: u16,
    count: nat,
)
    ensures
        channel.copied(state, control, count).ppu.line == state.ppu.line,
        channel.copied(state, control, count).ppu.hblank == state.ppu.hblank,
    decreases count,
{
    if count > 0 {
        let last = (count - 1) as nat;
        lemma_copying_keeps_the_time(channel, state, control, last);
        let before = channel.copied(state, control, last);
        lemma_storing_keeps_the_time(
            before,
            aligned(channel.target_of(control, last), unit_size(control)),
            before.word_at(channel.source_of(control, last)),
            unit_size(control) as nat,
        );
    }
}

proof fn lemma_storing_keeps_the_time(state: SystemState, start: u32, value: u32, count: nat)
    ensures
        state.bytes_stored(start, value, count).ppu.line == state.ppu.line,
        state.bytes_stored(start, value, count).ppu.hblank == state.ppu.hblank,
    decreases count,
{
    if count > 0 {
        lemma_storing_keeps_the_time(state, start, value, (count - 1) as nat);
    }
}

/// A channel that is run again with nothing changed does nothing, stays as it
/// is and takes no time, unless it has copied to its own control register.
pub proof fn second_run_does_nothing(channel: DmaChannel, state: SystemState)
    requires
        state.well_formed(),
        channel.well_formed(),
        channel.runnable(state),
        channel.copies(state) ==> channel.control(
            channel.copied(state, channel.control(state.io), channel.count as nat).io,
        ) == channel.control(state.io),
    ensures
        ({
            let again = channel.channel_after(state);
            let after = channel.state_after(state);
            &&& again.state_after(after) == after
            &&& again.channel_after(after) == again
            &&& again.cycles(after) == 0
        }),
{
    if channel.copies(state) {
        let control = channel.control(state.io);
        lemma_copying_keeps_the_time(channel, state, control, channel.count as nat);
        if !control.has_bit(9) {
            single_channel_switches_off(channel, state);
        }
    }
}

/// A channel that does not repeat switches itself off.
pub proof fn single_channel_switches_off(channel: DmaChannel, state: SystemState)
    requires
        state.well_formed(),
        channel.well_formed(),
        channel.runnable(state),
        channel.copies(state),
        !channel.control(state.io).has_bit(9),
    ensures
        !channel.control(channel.state_after(state).io).has_bit(15),
{
    let control = channel.control(state.io);
    let after = channel.state_after(state);
    let copied = channel.copied(state, control, channel.count as nat);
    crate::dma::lemma_copied(channel, state, control, channel.count as nat);
    let high = (control.with_bit(15, false) >> 8) as u8;
    assert(after.io[channel.offset() + 0xb] == high);
    let low = after.io[channel.offset() + 0xa];
    let merged = (low + 0x100 * high) as u16;
    assert(merged & (1u16 << 15) == 0) by (bit_vector)
        requires
            high == ((control & !(1u16 << 15)) >> 8) as u8,
            merged == low + 0x100 * high,
    ;
}

/// An address that does not move stays.
pub proof fn fixed_address_stays(address: u32, count: nat)
    ensures
        moved(address, 0, count) == address,
{
    assert(count * 0 == 0) by (nonlinear_arith);
}

/// The number of multiples of a divider from one cycle on and before another.
pub open spec fn multiples(divider: u32, from: int, to: int) -> int {
    (to + divider - 1) / (divider as int) - (from + divider - 1) / (divider as int)
}

/// A timer that is switched on counts once for every multiple of its divider
/// among the machine cycles that pass, as long as it does not run over.
#[verifier::spinoff_prover]
#[verifier::rlimit(50)]
pub proof fn timer_counts_multiples(timer: TimerState, cycle: u32, count: nat)
    requires
        timer.control().has_bit(7),
        cycle + count <= u32::MAX,
        timer.current + multiples(timer.divider(), cycle as int, cycle + count) <= 0xffff,
    ensures
        stepped_times(timer, cycle, count) == (TimerState {
            current: (timer.current + multiples(
                timer.divider(),
                cycle as int,
                cycle + count,
            )) as u16,
            ..timer
        }),
    decreases count,
{
    if count > 0 {
        let divider = timer.divider();
        let before = (count - 1) as nat;
        let last = (cycle + count - 1) as u32;
        assert(multiples(divider, cycle as int, cycle + count) == multiples(
            divider,
            cycle as int,
            cycle + before,
        ) + (if last % divider == 0 { 1int } else { 0 })) by {
            if divider == 1 {
            } else if divider == 64 {
                assert((last + 64) / 64 == (last + 63) / 64 + (if last % 64 == 0 { 1int } else { 0 }));
            } else if divider == 256 {
                assert((last + 256) / 256 == (last + 255) / 256 + (if last % 256 == 0 {
                    1int
                } else {
                    0
                }));
            } else {
                assert((last + 1024) / 1024 == (last + 1023) / 1024 + (if last % 1024 == 0 {
                    1int
                } else {
                    0
                }));
            }
        }
        assert(multiples(divider, cycle as int, cycle + before) >= 0) by {
            lemma_multiples(divider, cycle as int, cycle + before);
        }
        timer_counts_multiples(timer, cycle, before);
    }
}

proof fn lemma_multiples(divider: u32, from: int, to: int)
    requires
        divider > 0,
        from <= to,
    ensures
        multiples(divider, from, to) >= 0,
{
    vstd::arithmetic::div_mod::lemma_div_is_ordered(
        from + divider - 1,
        to + divider - 1,
        divider as int,
    );
}

/// A timer that runs over starts from its reload value again, and asks for its
/// interrupt exactly if its control byte says so.
pub proof fn overflow_reloads_the_timer(timer: TimerState, cycle: u32)
    requires
        timer.counts(cycle),
        timer.current == 0xffff,
    ensures
        timer.stepped(cycle) == (TimerState { current: timer.reload(), ..timer }),
        timer.raises(cycle) == timer.control().has_bit(6),
{
}

/// A timer after as many machine cycles, the first of which has this number.
pub open spec fn stepped_times(timer: TimerState, cycle: u32, count: nat) -> TimerState
    decreases count,
{
    if count == 0 {
        timer
    } else {
        stepped_times(timer, cycle, (count - 1) as nat).stepped(
            cycle.wrapping_add((count - 1) as u32),
        )
    }
}

/// A timer that is switched off never changes by itself.
pub proof fn stopped_timer_stays(timer: TimerState, cycle: u32)
    requires
        !timer.control().has_bit(7),
    ensures
        timer.stepped(cycle) == timer,
        !timer.raises(cycle),
{
}

/// What a timer shows is its count, and above it the two bytes of its control.
pub proof fn timer_shows_count_and_control(timer: TimerState)
    requires
        timer.registers.len() == 4,
    ensures
        timer.shown() == timer.current + 0x1_0000 * timer.registers[2] + 0x100_0000
            * timer.registers[3],
{
    let word = le32(timer.registers, 0);
    let count = timer.current;
    let low = (timer.registers[0] + 0x100 * timer.registers[1]) as u16;
    let high = (timer.registers[2] + 0x100 * timer.registers[3]) as u16;
    assert(word & 0xffff_0000 | (count as u32) == count + 0x1_0000 * high) by (bit_vector)
        requires
            word == low + 0x1_0000 * high,
    ;
}

} // verus!
