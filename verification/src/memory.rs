//! The memory map, and the bus through which the processor reaches it.

use vstd::prelude::*;

verus! {

/// What the processor needs of the memory behind it.
///
/// The bus is described by a state, the word that can be read at each address
/// in a state, and the state that a write leads to.
pub trait MemoryBus {
    /// What lies behind the bus.
    type State;

    /// The state that the bus is in.
    spec fn state(&self) -> Self::State;

    /// Whether a state is one that the bus can be in.
    spec fn valid(state: Self::State) -> bool;

    /// Whether a word can be read at the address.
    spec fn readable(state: Self::State, address: u32) -> bool;

    /// Whether `size` bytes can be written at the address.
    spec fn writable(state: Self::State, address: u32, size: u8) -> bool;

    /// The word that a read at the address gives.
    spec fn word_at(state: Self::State, address: u32) -> u32;

    /// The state after the low `size` bytes of the value have been written to
    /// the address.
    spec fn written(state: Self::State, address: u32, value: u32, size: u8) -> Self::State;

    /// A write changes neither which words can be read nor where can be
    /// written.
    proof fn write_keeps_access(
        state: Self::State,
        address: u32,
        value: u32,
        size: u8,
        other: u32,
        other_size: u8,
    )
        requires
            Self::valid(state),
            Self::writable(state, address, size),
        ensures
            Self::valid(Self::written(state, address, value, size)),
            Self::readable(Self::written(state, address, value, size), other) == Self::readable(
                state,
                other,
            ),
            Self::writable(Self::written(state, address, value, size), other, other_size)
                == Self::writable(state, other, other_size),
    ;

    /// Tells whether a word can be read at the address.
    fn can_read(&self, address: u32) -> (r: bool)
        requires
            Self::valid(self.state()),
        ensures
            r == Self::readable(self.state(), address),
    ;

    /// Tells whether `size` bytes can be written at the address.
    fn can_write(&self, address: u32, size: u8) -> (r: bool)
        requires
            Self::valid(self.state()),
        ensures
            r == Self::writable(self.state(), address, size),
    ;

    /// Reads the word at the address.
    fn read(&self, address: u32) -> (r: u32)
        requires
            Self::valid(self.state()),
            Self::readable(self.state(), address),
        ensures
            r == Self::word_at(self.state(), address),
    ;

    /// Writes the low `size` bytes of the value to the address.
    fn write(&mut self, address: u32, value: u32, size: u8)
        requires
            Self::valid(old(self).state()),
            Self::writable(old(self).state(), address, size),
        ensures
            Self::valid(final(self).state()),
            final(self).state() == Self::written(old(self).state(), address, value, size),
    ;
}

/// The parts of the machine that an address can belong to.
#[derive(Clone, Copy, PartialEq, Eq, Structural)]
pub enum MemoryRegion {
    Bios,
    Rom,
    Ram,
    PPURegister,
    Vram,
    Palette,
    IO,
    Oam,
}

/// The region that an address belongs to, and the offset in it. The memories
/// repeat over their part of the address space; the three views of the
/// cartridge show the same bytes; the last quarter of each repetition of the
/// video memory shows the quarter before it once more.
pub open spec fn mapped(address: u32) -> Option<(MemoryRegion, u32)> {
    if address < 0x4000 {
        Some((MemoryRegion::Bios, address))
    } else if 0x0200_0000 <= address < 0x0300_0000 {
        Some((MemoryRegion::Ram, address % 0x40000))
    } else if 0x0300_0000 <= address < 0x0400_0000 {
        Some((MemoryRegion::Ram, (address % 0x8000 + 0x40000) as u32))
    } else if 0x0400_0000 <= address < 0x0400_0060 {
        Some((MemoryRegion::PPURegister, (address - 0x0400_0000) as u32))
    } else if 0x0400_0060 <= address < 0x0400_03ff {
        Some((MemoryRegion::IO, (address - 0x0400_0000) as u32))
    } else if 0x0500_0000 <= address < 0x0600_0000 {
        Some((MemoryRegion::Palette, address % 0x400))
    } else if 0x0600_0000 <= address < 0x0700_0000 {
        let offset = address % 0x20000;
        Some((MemoryRegion::Vram, if offset >= 0x18000 { (offset - 0x8000) as u32 } else { offset }))
    } else if 0x0700_0000 <= address < 0x0800_0000 {
        Some((MemoryRegion::Oam, address % 0x400))
    } else if 0x0800_0000 <= address < 0x0e00_0000 {
        Some((MemoryRegion::Rom, address % 0x0200_0000))
    } else if 0x0e00_0000 <= address < 0x0f00_0000 {
        Some((MemoryRegion::Ram, (address % 0x10000 + 0x48000) as u32))
    } else {
        None
    }
}

/// Finds the region that an address belongs to and the offset in it, or `None`
/// where nothing is mapped.
#[must_use]
pub fn parse_address(address: u32) -> (r: Option<(MemoryRegion, u32)>)
    ensures
        r == mapped(address),
{
    if address < 0x4000 {
        Some((MemoryRegion::Bios, address))
    } else if 0x0200_0000 <= address && address < 0x0300_0000 {
        Some((MemoryRegion::Ram, address % 0x40000))
    } else if 0x0300_0000 <= address && address < 0x0400_0000 {
        Some((MemoryRegion::Ram, (address % 0x8000) + 0x40000))
    } else if 0x0400_0000 <= address && address < 0x0400_0060 {
        Some((MemoryRegion::PPURegister, address - 0x0400_0000))
    } else if 0x0400_0060 <= address && address < 0x0400_03ff {
        Some((MemoryRegion::IO, address - 0x0400_0000))
    } else if 0x0500_0000 <= address && address < 0x0600_0000 {
        Some((MemoryRegion::Palette, address % 0x400))
    } else if 0x0600_0000 <= address && address < 0x0700_0000 {
        let mut offset: u32 = address % 0x20000;
        if offset >= 0x18000 {
            offset -= 0x8000;
        }
        Some((MemoryRegion::Vram, offset))
    } else if 0x0700_0000 <= address && address < 0x0800_0000 {
        Some((MemoryRegion::Oam, address % 0x400))
    } else if 0x0800_0000 <= address && address < 0x0a00_0000 {
        Some((MemoryRegion::Rom, address - 0x0800_0000))
    } else if 0x0a00_0000 <= address && address < 0x0c00_0000 {
        Some((MemoryRegion::Rom, address - 0x0a00_0000))
    } else if 0x0c00_0000 <= address && address < 0x0e00_0000 {
        Some((MemoryRegion::Rom, address - 0x0c00_0000))
    } else if 0x0e00_0000 <= address && address < 0x0f00_0000 {
        Some((MemoryRegion::Ram, (address % 0x10000) + 0x48000))
    } else {
        None
    }
}

/// The number of bytes that the addresses of a region reach.
pub open spec fn region_size(region: MemoryRegion) -> nat {
    match region {
        MemoryRegion::Bios => 0x4000,
        MemoryRegion::Rom => 0x0200_0000,
        MemoryRegion::Ram => 0x58000,
        MemoryRegion::PPURegister => 0x60,
        MemoryRegion::Vram => 0x18000,
        MemoryRegion::Palette => 0x400,
        MemoryRegion::IO => 0x3ff,
        MemoryRegion::Oam => 0x400,
    }
}

/// Every mapped address has an offset inside its region.
pub proof fn mapped_offset_in_region(address: u32)
    requires
        mapped(address) is Some,
    ensures
        (mapped(address)->0).1 < region_size((mapped(address)->0).0),
{
}

/// The offset of a mapped address has the alignment of the address.
pub proof fn mapped_offset_is_aligned(address: u32)
    requires
        mapped(address) is Some,
    ensures
        (mapped(address)->0).1 % 4 == address % 4,
{
    assert(address % 0x400 % 4 == address % 4 && (address % 0x8000 + 0x40000) % 4 == address % 4 && (
    address % 0x10000 + 0x48000) % 4 == address % 4 && address % 0x20000 % 4 == address % 4 && (
    address % 0x20000 >= 0x18000 ==> (address % 0x20000 - 0x8000) % 4 == address % 4) && address
        % 0x40000 % 4 == address % 4 && address % 0x0200_0000 % 4 == address % 4) by (bit_vector);
}

/// A word that starts at a multiple of four lies in one region, at consecutive
/// offsets, but for the last word of the registers, whose last byte is not
/// mapped.
pub proof fn aligned_word_in_one_region(address: u32, byte: u32)
    requires
        address % 4 == 0,
        byte < 4,
        mapped(address) is Some,
        address + byte != 0x0400_03ff,
    ensures
        mapped((address + byte) as u32) == Some(
            ((mapped(address)->0).0, ((mapped(address)->0).1 + byte) as u32),
        ),
{
    let next = (address + byte) as u32;
    assert(next % 0x400 == address % 0x400 + byte && next % 0x8000 == address % 0x8000 + byte && next
        % 0x10000 == address % 0x10000 + byte && next % 0x20000 == address % 0x20000 + byte && next
        % 0x40000 == address % 0x40000 + byte && next % 0x0200_0000 == address % 0x0200_0000 + byte)
        by (bit_vector)
        requires
            address % 4 == 0,
            byte < 4,
            next == address + byte,
    ;
    assert(next / 4 == address / 4);
}

/// The two bytes of an aligned half word lie beside each other in one region, but for
/// the last half word of the registers.
pub proof fn neighbours_lie_together(address: u32)
    requires
        address % 2 == 0,
        mapped(address) is Some,
        address != 0x0400_03fe,
    ensures
        address < 0xffff_ffff,
        mapped((address + 1) as u32) == Some(
            ((mapped(address)->0).0, ((mapped(address)->0).1 + 1) as u32),
        ),
{
    let next = (address + 1) as u32;
    assert(address % 2 == 0 ==> next % 0x400 == address % 0x400 + 1 && next % 0x8000 == address
        % 0x8000 + 1 && next % 0x10000 == address % 0x10000 + 1 && next % 0x20000 == address
        % 0x20000 + 1 && next % 0x40000 == address % 0x40000 + 1 && next % 0x0200_0000 == address
        % 0x0200_0000 + 1) by (bit_vector)
        requires
            next == address + 1,
    ;
    assert(next / 2 == address / 2);
}

/// Where each part of the address space leads: the number of the repetition does not
/// matter, only the place in it. The two work memories and the cartridge memory lie
/// one after the other in one memory.
#[verifier::spinoff_prover]
#[verifier::rlimit(50)]
pub proof fn addresses_lead_to_their_memories(turn: u32, offset: u32)
    ensures
        offset < 0x4000 ==> mapped(offset) == Some((MemoryRegion::Bios, offset)),
        turn < 64 && offset < 0x40000 ==> mapped((0x0200_0000 + turn * 0x40000 + offset) as u32)
            == Some((MemoryRegion::Ram, offset)),
        turn < 512 && offset < 0x8000 ==> mapped((0x0300_0000 + turn * 0x8000 + offset) as u32)
            == Some((MemoryRegion::Ram, (0x40000 + offset) as u32)),
        turn < 256 && offset < 0x10000 ==> mapped((0x0e00_0000 + turn * 0x10000 + offset) as u32)
            == Some((MemoryRegion::Ram, (0x48000 + offset) as u32)),
        offset < 0x60 ==> mapped((0x0400_0000 + offset) as u32) == Some(
            (MemoryRegion::PPURegister, offset),
        ),
        0x60 <= offset < 0x3ff ==> mapped((0x0400_0000 + offset) as u32) == Some(
            (MemoryRegion::IO, offset),
        ),
        turn < 0x4000 && offset < 0x400 ==> mapped((0x0500_0000 + turn * 0x400 + offset) as u32)
            == Some((MemoryRegion::Palette, offset)),
        turn < 0x4000 && offset < 0x400 ==> mapped((0x0700_0000 + turn * 0x400 + offset) as u32)
            == Some((MemoryRegion::Oam, offset)),
        turn < 128 && offset < 0x18000 ==> mapped((0x0600_0000 + turn * 0x20000 + offset) as u32)
            == Some((MemoryRegion::Vram, offset)),
        turn < 128 && 0x10000 <= offset < 0x18000 ==> mapped(
            (0x0600_0000 + turn * 0x20000 + 0x8000 + offset) as u32,
        ) == Some((MemoryRegion::Vram, offset)),
        turn < 3 && offset < 0x0200_0000 ==> mapped(
            (0x0800_0000 + turn * 0x0200_0000 + offset) as u32,
        ) == Some((MemoryRegion::Rom, offset)),
{
    let t = turn as int;
    let o = offset as int;
    if offset < 0x400 {
        lemma_repetition(0x0500_0000, 0x400, t, o);
        lemma_repetition(0x0700_0000, 0x400, t, o);
    }
    if offset < 0x8000 {
        lemma_repetition(0x0300_0000, 0x8000, t, o);
    }
    if offset < 0x10000 {
        lemma_repetition(0x0e00_0000, 0x10000, t, o);
    }
    if offset < 0x18000 {
        lemma_repetition(0x0600_0000, 0x20000, t, o);
        lemma_repetition(0x0600_0000, 0x20000, t, o + 0x8000);
    }
    if offset < 0x40000 {
        lemma_repetition(0x0200_0000, 0x40000, t, o);
    }
    if offset < 0x0200_0000 {
        lemma_repetition(0x0800_0000, 0x0200_0000, t, o);
    }
}

/// A place in a repetition is what is left of it modulo the size.
proof fn lemma_repetition(start: int, size: int, turn: int, offset: int)
    requires
        size > 0,
        start % size == 0,
        0 <= offset < size,
    ensures
        (start + turn * size + offset) % size == offset,
{
    vstd::arithmetic::div_mod::lemma_mod_multiples_vanish(turn, start + offset, size);
    vstd::arithmetic::mul::lemma_mul_is_commutative(turn, size);
    vstd::arithmetic::div_mod::lemma_add_mod_noop(start, offset, size);
    vstd::arithmetic::div_mod::lemma_small_mod(offset as nat, size as nat);
}

/// Nothing is mapped between the start-up program and the work memory, between the
/// registers and the palette, and after the cartridge memory.
pub proof fn gaps_lead_nowhere(address: u32)
    ensures
        mapped(address) is None <==> 0x4000 <= address < 0x0200_0000 || 0x0400_03ff <= address
            < 0x0500_0000 || 0x0f00_0000 <= address,
{
}

/// The three views of the cartridge, the repetitions of the two work memories,
/// of the palette, of the video memory, of the object memory and of the
/// cartridge memory show the same bytes.
pub proof fn memories_repeat(address: u32)
    ensures
        0x0800_0000 <= address < 0x0c00_0000 ==> mapped((address + 0x0200_0000) as u32) == mapped(
            address,
        ),
        0x0200_0000 <= address < 0x0300_0000 - 0x40000 ==> mapped((address + 0x40000) as u32)
            == mapped(address),
        0x0300_0000 <= address < 0x0400_0000 - 0x8000 ==> mapped((address + 0x8000) as u32)
            == mapped(address),
        0x0500_0000 <= address < 0x0600_0000 - 0x400 ==> mapped((address + 0x400) as u32) == mapped(
            address,
        ),
        0x0600_0000 <= address < 0x0700_0000 - 0x20000 ==> mapped((address + 0x20000) as u32)
            == mapped(address),
        0x0700_0000 <= address < 0x0800_0000 - 0x400 ==> mapped((address + 0x400) as u32) == mapped(
            address,
        ),
        0x0e00_0000 <= address < 0x0f00_0000 - 0x10000 ==> mapped((address + 0x10000) as u32)
            == mapped(address),
{
    if address < 0x0f00_0000 {
        assert((address + 0x400) % 0x400 == address % 0x400 && (address + 0x8000) % 0x8000 == address
            % 0x8000 && (address + 0x10000) % 0x10000 == address % 0x10000 && (address + 0x20000)
            % 0x20000 == address % 0x20000 && (address + 0x40000) % 0x40000 == address % 0x40000 && (
        address + 0x0200_0000) % 0x0200_0000 == address % 0x0200_0000) by (bit_vector)
            requires
                address < 0x0f00_0000,
        ;
    }
}

} // verus!
