//! The numbers of the bits of a program status register.

use vstd::prelude::*;

verus! {

/// The last result was negative.
pub const NEGATIVE: u32 = 31;

/// The last result was zero.
pub const ZERO: u32 = 30;

/// The last operation carried out of the top bit.
pub const CARRY: u32 = 29;

/// The last operation overflowed as a signed one.
pub const OVERFLOW: u32 = 28;

/// Interrupts are not taken.
pub const DISABLE_IRQ: u32 = 7;

/// Instructions are half words.
pub const THUMB: u32 = 5;

} // verus!
