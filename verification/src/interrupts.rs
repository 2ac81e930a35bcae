//! The interrupt enable and request registers.

use crate::bits::Bits;
use vstd::prelude::*;

verus! {

/// The number of interrupt sources that a register has a bit for.
pub const INTERRUPT_KINDS: u32 = 16;

/// Both interrupt registers in one word: the low half enables the sources,
/// the high half holds the requests that are not acknowledged yet.
pub struct Interrupts(pub u32);

/// The registers after the source `kind` has asked for an interrupt: a request
/// is recorded where the source is enabled, and lost where it is not.
pub open spec fn requested(registers: u32, kind: u32) -> u32 {
    if registers.has_bit(kind) {
        registers.with_bit((kind + 16) as u32, true)
    } else {
        registers
    }
}

/// The registers after a byte has been written to one of the four addresses
/// from 0x200 on. A byte of the enable half is replaced; in the request half
/// the bits that are set in the byte are acknowledged, which clears them.
pub open spec fn byte_written(registers: u32, address: u32, value: u8) -> u32 {
    let shift = ((address - 0x200) * 8) as u32;
    if address < 0x202 {
        registers & !(0xffu32 << shift) | ((value as u32) << shift)
    } else {
        registers & !((value as u32) << shift)
    }
}

impl Interrupts {
    /// Records a request of the source `kind` if that source is enabled. The
    /// bits of the request half are no sources.
    pub fn interrupt(&mut self, kind: u32)
        requires
            kind < 32,
            old(self).0.has_bit(kind) ==> kind < INTERRUPT_KINDS,
        ensures
            final(self).0 == requested(old(self).0, kind),
    {
        if self.0.bit(kind) {
            self.0.set_bit(kind + 16, true);
        }
    }

    /// Writes one byte of the registers.
    pub fn write_register(&mut self, address: u32, value: u8)
        requires
            0x200 <= address < 0x204,
        ensures
            final(self).0 == byte_written(old(self).0, address, value),
    {
        let shift: u32 = (address - 0x200) * 8;
        if address < 0x202 {
            self.0 = self.0 & !(0xffu32 << shift) | ((value as u32) << shift);
        } else {
            self.0 = self.0 & !((value as u32) << shift);
        }
    }
}

/// A request never changes which sources are enabled, never withdraws another
/// request, and is recorded exactly where its source is enabled or the request
/// stood already.
pub proof fn request_is_recorded_when_enabled(registers: u32, kind: u32, other: u32)
    requires
        kind < INTERRUPT_KINDS,
        other < 32,
    ensures
        requested(registers, kind).has_bit((kind + 16) as u32) == (registers.has_bit(kind)
            || registers.has_bit((kind + 16) as u32)),
        other != kind + 16 ==> requested(registers, kind).has_bit(other) == registers.has_bit(
            other,
        ),
{
    crate::bits::set_bit_is_local_u32(registers, (kind + 16) as u32, true, other);
}

/// Requesting the same interrupt again changes nothing.
pub proof fn request_is_idempotent(registers: u32, kind: u32)
    requires
        kind < INTERRUPT_KINDS,
    ensures
        requested(requested(registers, kind), kind) == requested(registers, kind),
{
    let bit = (kind + 16) as u32;
    assert((registers | (1u32 << bit)) | (1u32 << bit) == registers | (1u32 << bit))
        by (bit_vector);
}

/// A byte written to the request half clears the requests whose bits it has
/// set, and changes nothing else.
pub proof fn acknowledging_clears_requests(registers: u32, address: u32, value: u8, bit: u32)
    requires
        0x202 <= address < 0x204,
        bit < 32,
    ensures
        byte_written(registers, address, value).has_bit(bit) == (registers.has_bit(bit) && !(
        8 * (address - 0x200) <= bit < 8 * (address - 0x200) + 8 && value.has_bit(
            (bit - 8 * (address - 0x200)) as u8,
        ))),
{
    let shift = ((address - 0x200) * 8) as u32;
    if shift <= bit < shift + 8 {
        let low = (bit - shift) as u8;
        assert(((registers & !((value as u32) << shift)) & (1u32 << bit) != 0) == (registers & (1u32
            << bit) != 0 && value & (1u8 << low) == 0)) by (bit_vector)
            requires
                shift <= 24,
                low < 8,
                bit == shift + low,
        ;
    } else {
        assert((registers & !((value as u32) << shift)) & (1u32 << bit) == registers & (1u32
            << bit)) by (bit_vector)
            requires
                shift <= 24,
                bit < 32,
                bit < shift || bit >= shift + 8,
        ;
    }
}

/// A byte written to the enable half replaces that byte, and changes nothing
/// else; in particular it touches no request.
pub proof fn enabling_replaces_one_byte(registers: u32, address: u32, value: u8, bit: u32)
    requires
        0x200 <= address < 0x202,
        bit < 32,
    ensures
        byte_written(registers, address, value).has_bit(bit) == (if 8 * (address - 0x200) <= bit < 8
            * (address - 0x200) + 8 {
            value.has_bit((bit - 8 * (address - 0x200)) as u8)
        } else {
            registers.has_bit(bit)
        }),
{
    let shift = ((address - 0x200) * 8) as u32;
    if shift <= bit < shift + 8 {
        let low = (bit - shift) as u8;
        assert(((registers & !(0xffu32 << shift) | ((value as u32) << shift)) & (1u32 << bit) != 0)
            == (value & (1u8 << low) != 0)) by (bit_vector)
            requires
                shift <= 8,
                low < 8,
                bit == shift + low,
        ;
    } else {
        assert((registers & !(0xffu32 << shift) | ((value as u32) << shift)) & (1u32 << bit)
            == registers & (1u32 << bit)) by (bit_vector)
            requires
                shift <= 8,
                bit < 32,
                bit < shift || bit >= shift + 8,
        ;
    }
}

} // verus!
