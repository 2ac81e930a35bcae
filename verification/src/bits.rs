//! Single bits and little-endian groups of bytes.

use vstd::arithmetic::power2::pow2;
use vstd::prelude::*;

verus! {

/// Access to the single bits of an unsigned integer, counted from the least
/// significant one.
pub trait Bits: Sized {
    /// Whether `bit` is the number of a bit of this type.
    spec fn in_width(bit: Self) -> bool;

    /// Whether the bit with the number `bit` is set.
    spec fn has_bit(self, bit: Self) -> bool;

    /// This value with one bit replaced.
    spec fn with_bit(self, bit: Self, set: bool) -> Self;

    /// Tells whether the bit is set.
    fn bit(&self, bit: Self) -> (r: bool)
        requires
            Self::in_width(bit),
        ensures
            r == self.has_bit(bit),
    ;

    /// Replaces the bit by `set`.
    fn set_bit(&mut self, bit: Self, set: bool)
        requires
            Self::in_width(bit),
        ensures
            *final(self) == old(self).with_bit(bit, set),
    ;
}

impl Bits for u8 {
    open spec fn in_width(bit: u8) -> bool {
        bit < 8
    }

    open spec fn has_bit(self, bit: u8) -> bool {
        (self & (1u8 << bit)) != 0
    }

    open spec fn with_bit(self, bit: u8, set: bool) -> u8 {
        if set { self | (1u8 << bit) } else { self & !(1u8 << bit) }
    }

    fn bit(&self, bit: u8) -> bool {
        (*self & (1u8 << bit)) != 0
    }

    fn set_bit(&mut self, bit: u8, set: bool) {
        let mask: u8 = 1u8 << bit;
        *self = if set { *self | mask } else { *self & !mask };
    }
}

impl Bits for u16 {
    open spec fn in_width(bit: u16) -> bool {
        bit < 16
    }

    open spec fn has_bit(self, bit: u16) -> bool {
        (self & (1u16 << bit)) != 0
    }

    open spec fn with_bit(self, bit: u16, set: bool) -> u16 {
        if set { self | (1u16 << bit) } else { self & !(1u16 << bit) }
    }

    fn bit(&self, bit: u16) -> bool {
        (*self & (1u16 << bit)) != 0
    }

    fn set_bit(&mut self, bit: u16, set: bool) {
        let mask: u16 = 1u16 << bit;
        *self = if set { *self | mask } else { *self & !mask };
    }
}

impl Bits for u32 {
    open spec fn in_width(bit: u32) -> bool {
        bit < 32
    }

    open spec fn has_bit(self, bit: u32) -> bool {
        (self & (1u32 << bit)) != 0
    }

    open spec fn with_bit(self, bit: u32, set: bool) -> u32 {
        if set { self | (1u32 << bit) } else { self & !(1u32 << bit) }
    }

    fn bit(&self, bit: u32) -> bool {
        (*self & (1u32 << bit)) != 0
    }

    fn set_bit(&mut self, bit: u32, set: bool) {
        let mask: u32 = 1u32 << bit;
        *self = if set { *self | mask } else { *self & !mask };
    }
}

/// The unsigned 16-bit number whose bytes start at `index`, low byte first.
pub open spec fn le16(bytes: Seq<u8>, index: int) -> u16 {
    (bytes[index] + 0x100 * bytes[index + 1]) as u16
}

/// The unsigned 32-bit number whose bytes start at `index`, low byte first.
pub open spec fn le32(bytes: Seq<u8>, index: int) -> u32 {
    (bytes[index] + 0x100 * bytes[index + 1] + 0x1_0000 * bytes[index + 2] + 0x100_0000 * bytes[index
        + 3]) as u32
}

/// The two bytes of a 16-bit number, low byte first.
pub open spec fn le_bytes(value: u16) -> Seq<u8> {
    seq![(value % 0x100) as u8, (value / 0x100) as u8]
}

/// Reads the little-endian 16-bit number at `index`.
pub fn read_u16(target: &[u8], index: usize) -> (r: u16)
    requires
        index + 1 < target@.len(),
    ensures
        r == le16(target@, index as int),
{
    target[index] as u16 + 0x100 * target[index + 1] as u16
}

/// Reads the little-endian 32-bit number at `index`.
pub fn read_bytes(target: &[u8], index: u32) -> (r: u32)
    requires
        index + 3 < target@.len(),
    ensures
        r == le32(target@, index as int),
{
    let index: usize = index as usize;
    target[index] as u32 + 0x100 * target[index + 1] as u32 + 0x1_0000 * target[index + 2] as u32
        + 0x100_0000 * target[index + 3] as u32
}

/// The groups of bits of a byte, a half word and a word as digits.
proof fn lemma_digits(a: u8, b: u16, c: u32)
    ensures
        a & 0xf == a % 16,
        a >> 6 == a / 64,
        a >> 4 == a / 16,
        (a >> 4) & 0xf == a / 16,
        (a >> 0) & 0xf == a % 16,
        (a >> 0) & 0b1111 == a % 16,
        (a >> 1) & 0b11111 == a / 2 % 32,
        (a >> 2) & 0b11 == a / 4 % 4,
        a & 0b11 == a % 4,
        a & 1 == a % 2,
        a >> 1 == a / 2,
        b & 0x1ff == b % 512,
        b & 0x3ff == b % 1024,
        b & 0b111 == b % 8,
        b & 0b11 == b % 4,
        (b >> 8) & 0b11111 == b / 256 % 32,
        (b >> 2) & 0b11 == b / 4 % 4,
        (b >> 5) & 0b11 == b / 32 % 4,
        (b >> 7) & 0b11 == b / 128 % 4,
        (b >> 12) & 0b11 == b / 4096 % 4,
        b >> 12 == b / 4096,
        b >> 13 == b / 8192,
        b >> 14 == b / 16384,
        c & 0xff == c % 256,
        c & 0x3ff == c % 1024,
        c & 0xfff_ffff == c % 0x1000_0000,
        c & !3u32 == c - c % 4,
        c & !1u32 == c - c % 2,
        c & 0xffff_0000 == c - c % 0x1_0000,
        b as u32 | ((a as u32) << 16) == b + 0x1_0000 * a,
{
    assert(a & 0xf == a % 16
        && a >> 6 == a / 64
        && a >> 4 == a / 16
        && (a >> 4) & 0xf == a / 16
        && (a >> 0) & 0xf == a % 16
        && (a >> 0) & 0b1111 == a % 16
        && (a >> 1) & 0b11111 == a / 2 % 32
        && (a >> 2) & 0b11 == a / 4 % 4
        && a & 0b11 == a % 4
        && a & 1 == a % 2
        && a >> 1 == a / 2
        && b & 0x1ff == b % 512
        && b & 0x3ff == b % 1024
        && b & 0b111 == b % 8
        && b & 0b11 == b % 4
        && (b >> 8) & 0b11111 == b / 256 % 32
        && (b >> 2) & 0b11 == b / 4 % 4
        && (b >> 5) & 0b11 == b / 32 % 4
        && (b >> 7) & 0b11 == b / 128 % 4
        && (b >> 12) & 0b11 == b / 4096 % 4
        && b >> 12 == b / 4096
        && b >> 13 == b / 8192
        && b >> 14 == b / 16384
        && c & 0xff == c % 256
        && c & 0x3ff == c % 1024
        && c & 0xfff_ffff == c % 0x1000_0000
        && c & !3u32 == c - c % 4
        && c & !1u32 == c - c % 2
        && c & 0xffff_0000 == c - c % 0x1_0000
        && b as u32 | ((a as u32) << 16) == b + 0x1_0000 * a) by (bit_vector);
}

/// The groups of bits of a byte as digits.
pub(crate) proof fn lemma_digits_u8(value: u8)
    ensures
        value & 0xf == value % 16,
        value >> 6 == value / 64,
        value >> 4 == value / 16,
        (value >> 4) & 0xf == value / 16,
        (value >> 0) & 0xf == value % 16,
        (value >> 0) & 0b1111 == value % 16,
        (value >> 1) & 0b11111 == value / 2 % 32,
        (value >> 2) & 0b11 == value / 4 % 4,
        value & 0b11 == value % 4,
        value & 1 == value % 2,
        value >> 1 == value / 2,
{
    lemma_digits(value, 0, 0);
}

/// The groups of bits of a half word as digits.
pub(crate) proof fn lemma_digits_u16(value: u16)
    ensures
        value & 0x1ff == value % 512,
        value & 0x3ff == value % 1024,
        value & 0b111 == value % 8,
        value & 0b11 == value % 4,
        (value >> 8) & 0b11111 == value / 256 % 32,
        (value >> 2) & 0b11 == value / 4 % 4,
        (value >> 5) & 0b11 == value / 32 % 4,
        (value >> 7) & 0b11 == value / 128 % 4,
        (value >> 12) & 0b11 == value / 4096 % 4,
        value >> 12 == value / 4096,
        value >> 13 == value / 8192,
        value >> 14 == value / 16384,
{
    lemma_digits(0, value, 0);
}

/// The groups of bits of a word as digits.
pub(crate) proof fn lemma_digits_u32(value: u32)
    ensures
        value & 0xff == value % 256,
        value & 0x3ff == value % 1024,
        value & 0xfff_ffff == value % 0x1000_0000,
        value & !3u32 == value - value % 4,
        value & !1u32 == value - value % 2,
        value & 0xffff_0000 == value - value % 0x1_0000,
{
    lemma_digits(0, 0, value);
}

/// The ranges of groups of bits of a byte.
pub(crate) proof fn lemma_fields_u8(value: u8)
    ensures
        value & 0xf <= 15,
        value >> 6 <= 3,
        value >> 4 <= 15,
        (value >> 4) & 0xf <= 15,
        (value >> 1) & 0b11111 <= 31,
        (value >> 2) & 0b11 <= 3,
{
    lemma_digits_u8(value);
}

/// The ranges of groups of bits of a half word.
pub(crate) proof fn lemma_fields_u16(value: u16)
    ensures
        value & 0x1ff < 512,
        value & 0x3ff < 1024,
        value & 0b111 <= 7,
        value & 0b11 <= 3,
        (value >> 8) & 0b11111 <= 31,
        (value >> 2) & 0b11 <= 3,
        value >> 12 <= 15,
        value >> 14 <= 3,
{
    lemma_digits_u16(value);
}

/// A half word with a byte above it.
pub(crate) proof fn lemma_joined(low: u16, high: u8)
    ensures
        low as u32 | ((high as u32) << 16) == low + 0x1_0000 * high,
{
    lemma_digits(high, low, 0);
}

/// What the single bits of a byte, a half word and a word are, and what setting
/// one does to the others.
proof fn lemma_single_bits(
    a: u8,
    a_bit: u8,
    a_other: u8,
    b: u16,
    b_bit: u16,
    b_other: u16,
    c: u32,
    c_bit: u32,
    c_other: u32,
)
    requires
        a_bit < 8,
        a_other < 8,
        b_bit < 16,
        b_other < 16,
        c_bit < 32,
        c_other < 32,
    ensures
        (a & (1u8 << a_bit) != 0) == ((a >> a_bit) % 2 == 1),
        (b & (1u16 << b_bit) != 0) == ((b >> b_bit) % 2 == 1),
        (c & (1u32 << c_bit) != 0) == ((c >> c_bit) % 2 == 1),
        (a | (1u8 << a_bit)) & (1u8 << a_bit) != 0,
        (a & !(1u8 << a_bit)) & (1u8 << a_bit) == 0,
        a_other != a_bit ==> (a | (1u8 << a_bit)) & (1u8 << a_other) == a & (1u8 << a_other),
        a_other != a_bit ==> (a & !(1u8 << a_bit)) & (1u8 << a_other) == a & (1u8 << a_other),
        (b | (1u16 << b_bit)) & (1u16 << b_bit) != 0,
        (b & !(1u16 << b_bit)) & (1u16 << b_bit) == 0,
        b_other != b_bit ==> (b | (1u16 << b_bit)) & (1u16 << b_other) == b & (1u16 << b_other),
        b_other != b_bit ==> (b & !(1u16 << b_bit)) & (1u16 << b_other) == b & (1u16 << b_other),
        (c | (1u32 << c_bit)) & (1u32 << c_bit) != 0,
        (c & !(1u32 << c_bit)) & (1u32 << c_bit) == 0,
        c_other != c_bit ==> (c | (1u32 << c_bit)) & (1u32 << c_other) == c & (1u32 << c_other),
        c_other != c_bit ==> (c & !(1u32 << c_bit)) & (1u32 << c_other) == c & (1u32 << c_other),
{
    assert((a & (1u8 << a_bit) != 0) == ((a >> a_bit) % 2 == 1)
        && (b & (1u16 << b_bit) != 0) == ((b >> b_bit) % 2 == 1)
        && (c & (1u32 << c_bit) != 0) == ((c >> c_bit) % 2 == 1)
        && (a | (1u8 << a_bit)) & (1u8 << a_bit) != 0
        && (a & !(1u8 << a_bit)) & (1u8 << a_bit) == 0
        && (a_other != a_bit ==> (a | (1u8 << a_bit)) & (1u8 << a_other) == a & (1u8 << a_other))
        && (a_other != a_bit ==> (a & !(1u8 << a_bit)) & (1u8 << a_other) == a & (1u8 << a_other))
        && (b | (1u16 << b_bit)) & (1u16 << b_bit) != 0
        && (b & !(1u16 << b_bit)) & (1u16 << b_bit) == 0
        && (b_other != b_bit ==> (b | (1u16 << b_bit)) & (1u16 << b_other) == b & (1u16 << b_other))
        && (b_other != b_bit ==> (b & !(1u16 << b_bit)) & (1u16 << b_other) == b & (1u16 << b_other))
        && (c | (1u32 << c_bit)) & (1u32 << c_bit) != 0
        && (c & !(1u32 << c_bit)) & (1u32 << c_bit) == 0
        && (c_other != c_bit ==> (c | (1u32 << c_bit)) & (1u32 << c_other) == c & (1u32 << c_other))
        && (c_other != c_bit ==> (c & !(1u32 << c_bit)) & (1u32 << c_other) == c & (1u32 << c_other))) by (bit_vector)
        requires
            a_bit < 8,
            a_other < 8,
            b_bit < 16,
            b_other < 16,
            c_bit < 32,
            c_other < 32,
    ;
}

/// A bit reads back as it was set, and setting it changes no other bit of the
/// byte.
pub proof fn set_bit_is_local_u8(value: u8, bit: u8, set: bool, other: u8)
    requires
        bit < 8,
        other < 8,
    ensures
        value.with_bit(bit, set).has_bit(bit) == set,
        other != bit ==> value.with_bit(bit, set).has_bit(other) == value.has_bit(other),
{
    lemma_single_bits(value, bit, other, 0, 0, 0, 0, 0, 0);
}

/// A bit reads back as it was set, and setting it changes no other bit of the
/// half word.
pub proof fn set_bit_is_local_u16(value: u16, bit: u16, set: bool, other: u16)
    requires
        bit < 16,
        other < 16,
    ensures
        value.with_bit(bit, set).has_bit(bit) == set,
        other != bit ==> value.with_bit(bit, set).has_bit(other) == value.has_bit(other),
{
    lemma_single_bits(0, 0, 0, value, bit, other, 0, 0, 0);
}

/// A bit reads back as it was set, and setting it changes no other bit of the
/// word.
pub proof fn set_bit_is_local_u32(value: u32, bit: u32, set: bool, other: u32)
    requires
        bit < 32,
        other < 32,
    ensures
        value.with_bit(bit, set).has_bit(bit) == set,
        other != bit ==> value.with_bit(bit, set).has_bit(other) == value.has_bit(other),
{
    lemma_single_bits(0, 0, 0, 0, 0, 0, value, bit, other);
}

/// The bits of a byte are its binary digits.
pub proof fn bits_are_digits_u8(value: u8, bit: u8)
    requires
        bit < 8,
    ensures
        value.has_bit(bit) == (value as int / pow2(bit as nat) as int % 2 == 1),
{
    lemma_single_bits(value, bit, 0, 0, 0, 0, 0, 0, 0);
    vstd::bits::lemma_u8_shr_is_div(value, bit);
}

/// The bits of a half word are its binary digits.
pub proof fn bits_are_digits_u16(value: u16, bit: u16)
    requires
        bit < 16,
    ensures
        value.has_bit(bit) == (value as int / pow2(bit as nat) as int % 2 == 1),
{
    lemma_single_bits(0, 0, 0, value, bit, 0, 0, 0, 0);
    vstd::bits::lemma_u16_shr_is_div(value, bit);
}

/// The bits of a word are its binary digits.
pub proof fn bits_are_digits_u32(value: u32, bit: u32)
    requires
        bit < 32,
    ensures
        value.has_bit(bit) == (value as int / pow2(bit as nat) as int % 2 == 1),
{
    lemma_single_bits(0, 0, 0, 0, 0, 0, value, bit, 0);
    vstd::bits::lemma_u32_shr_is_div(value, bit);
}

/// Reading the four bytes of a number, the lowest first, gives the number back.
pub proof fn le_words_read_back(bytes: Seq<u8>, index: int, value: u32)
    requires
        forall|i: int|
            0 <= i < 4 ==> #[trigger] bytes[index + i] == value as int / pow2((8 * i) as nat) as int
                % 0x100,
    ensures
        le32(bytes, index) == value,
        le16(bytes, index) == value % 0x1_0000,
        le16(bytes, index + 2) == value / 0x1_0000,
{
    vstd::arithmetic::power2::lemma2_to64();
    assert(bytes[index + 0] == value as int / 1 % 0x100);
    assert(bytes[index + 1] == value as int / 0x100 % 0x100);
    assert(bytes[index + 2] == value as int / 0x1_0000 % 0x100);
    assert(bytes[index + 3] == value as int / 0x100_0000 % 0x100);
}

/// Reading the two bytes of a number gives the number back.
pub proof fn le_bytes_read_back(value: u16)
    ensures
        le16(le_bytes(value), 0) == value,
{
}

} // verus!
