//! The processor modes and the register banks that belong to them.

use vstd::prelude::*;

verus! {

/// The modes that the processor can be in.
#[derive(Debug, Clone, Copy, PartialEq, Eq, Structural)]
pub enum CpuMode {
    User,
    Fiq,
    Irq,
    Supervisor,
    Abort,
    Undefined,
    System,
}

/// The mode whose number stands in the low four bits of a status register.
pub open spec fn mode_of(bits: u8) -> Option<CpuMode> {
    if bits == 0b0000 {
        Some(CpuMode::User)
    } else if bits == 0b0001 {
        Some(CpuMode::Fiq)
    } else if bits == 0b0010 {
        Some(CpuMode::Irq)
    } else if bits == 0b0011 {
        Some(CpuMode::Supervisor)
    } else if bits == 0b0111 {
        Some(CpuMode::Abort)
    } else if bits == 0b1011 {
        Some(CpuMode::Undefined)
    } else if bits == 0b1111 {
        Some(CpuMode::System)
    } else {
        None
    }
}

impl CpuMode {
    /// The number of the mode.
    pub open spec fn number(self) -> u8 {
        match self {
            CpuMode::User => 0b0000,
            CpuMode::Fiq => 0b0001,
            CpuMode::Irq => 0b0010,
            CpuMode::Supervisor => 0b0011,
            CpuMode::Abort => 0b0111,
            CpuMode::Undefined => 0b1011,
            CpuMode::System => 0b1111,
        }
    }

    /// The mode with this number; a number that no mode has is handed back.
    pub fn try_from(bits: u8) -> (r: Result<CpuMode, u8>)
        ensures
            r == (match mode_of(bits) {
                Some(mode) => Ok::<CpuMode, u8>(mode),
                None => Err::<CpuMode, u8>(bits),
            }),
    {
        match bits {
            0b0000 => Ok(CpuMode::User),
            0b0001 => Ok(CpuMode::Fiq),
            0b0010 => Ok(CpuMode::Irq),
            0b0011 => Ok(CpuMode::Supervisor),
            0b0111 => Ok(CpuMode::Abort),
            0b1011 => Ok(CpuMode::Undefined),
            0b1111 => Ok(CpuMode::System),
            _ => Err(bits),
        }
    }
}

/// The number of registers in all banks together.
pub const REGISTERS: usize = 31;

/// The number of saved status registers.
pub const SAVED_STATUSES: usize = 5;

/// Where a register stands that a program in the mode names by a number from 0
/// to 15. The registers that every mode shares come first; then the seven of
/// the fast interrupt mode and the two of each other exception mode.
pub open spec fn banked(mode: CpuMode, register: int) -> int {
    if mode == CpuMode::Fiq && 8 <= register <= 14 {
        8 + register
    } else if mode == CpuMode::Supervisor && 13 <= register <= 14 {
        10 + register
    } else if mode == CpuMode::Abort && 13 <= register <= 14 {
        12 + register
    } else if mode == CpuMode::Irq && 13 <= register <= 14 {
        14 + register
    } else if mode == CpuMode::Undefined && 13 <= register <= 14 {
        16 + register
    } else {
        register
    }
}

/// Which saved status register belongs to a mode.
pub open spec fn saved_status_of(mode: CpuMode) -> Option<usize> {
    match mode {
        CpuMode::Fiq => Some(0usize),
        CpuMode::Supervisor => Some(1usize),
        CpuMode::Abort => Some(2usize),
        CpuMode::Irq => Some(3usize),
        CpuMode::Undefined => Some(4usize),
        CpuMode::User => None,
        CpuMode::System => None,
    }
}

/// Finds the place of a register that a program in the mode names.
pub fn register_index(mode: CpuMode, register: u32) -> (index: usize)
    requires
        register < 16,
    ensures
        index == banked(mode, register as int),
        index < REGISTERS,
{
    let register: usize = register as usize;
    match mode {
        CpuMode::Fiq => if 8 <= register && register <= 14 {
            8 + register
        } else {
            register
        },
        CpuMode::Supervisor => if 13 <= register && register <= 14 {
            10 + register
        } else {
            register
        },
        CpuMode::Abort => if 13 <= register && register <= 14 {
            12 + register
        } else {
            register
        },
        CpuMode::Irq => if 13 <= register && register <= 14 {
            14 + register
        } else {
            register
        },
        CpuMode::Undefined => if 13 <= register && register <= 14 {
            16 + register
        } else {
            register
        },
        CpuMode::User => register,
        CpuMode::System => register,
    }
}

/// Finds the saved status register of a mode; the user and the system mode
/// have none.
pub fn spsr_index(mode: CpuMode) -> (index: Option<usize>)
    ensures
        index == saved_status_of(mode),
{
    match mode {
        CpuMode::Fiq => Some(0),
        CpuMode::Supervisor => Some(1),
        CpuMode::Abort => Some(2),
        CpuMode::Irq => Some(3),
        CpuMode::Undefined => Some(4),
        CpuMode::User => None,
        CpuMode::System => None,
    }
}

/// A mode and its number determine each other.
pub proof fn mode_numbers_are_unique(mode: CpuMode, bits: u8)
    ensures
        mode_of(mode.number()) == Some(mode),
        mode_of(bits) == Some(mode) ==> mode.number() == bits,
{
}

/// Two names lead to the same place only if they are the same register: a
/// place belongs to one register number, and outside the shared registers to
/// one mode.
pub proof fn register_banks_do_not_overlap(a: CpuMode, i: int, b: CpuMode, j: int)
    requires
        0 <= i < 16,
        0 <= j < 16,
        banked(a, i) == banked(b, j),
    ensures
        i == j,
        banked(a, i) >= 16 ==> a == b,
{
}

/// Which registers a mode has of its own: the fast interrupt mode those from 8 to 14, the
/// other exception modes 13 and 14, and the user and system modes none. Only the
/// exception modes have a saved status.
pub proof fn exception_modes_have_their_own_registers(mode: CpuMode, register: int)
    requires
        0 <= register < 16,
    ensures
        ({
            let exception = mode != CpuMode::User && mode != CpuMode::System;
            let own = exception && register <= 14 && register >= (if mode == CpuMode::Fiq {
                8int
            } else {
                13
            });
            &&& own ==> 16 <= banked(mode, register) < REGISTERS
            &&& !own ==> banked(mode, register) == register
            &&& (saved_status_of(mode) is Some) == exception
        }),
{
}

/// The numbers of the modes; no other number stands for one.
pub proof fn modes_have_their_numbers(bits: u8)
    ensures
        mode_of(0) == Some(CpuMode::User),
        mode_of(1) == Some(CpuMode::Fiq),
        mode_of(2) == Some(CpuMode::Irq),
        mode_of(3) == Some(CpuMode::Supervisor),
        mode_of(7) == Some(CpuMode::Abort),
        mode_of(11) == Some(CpuMode::Undefined),
        mode_of(15) == Some(CpuMode::System),
        mode_of(bits) matches Some(mode) ==> mode.number() == bits,
        mode_of(bits) is None == !(bits < 4 || bits == 7 || bits == 11 || bits == 15),
{
}

/// The program counter is shared by all modes.
pub proof fn program_counter_is_shared(mode: CpuMode)
    ensures
        banked(mode, 15) == 15,
{
}

/// Two exception modes never save to the same place.
pub proof fn saved_statuses_do_not_overlap(a: CpuMode, b: CpuMode)
    requires
        saved_status_of(a) is Some,
        saved_status_of(a) == saved_status_of(b),
    ensures
        a == b,
{
}

} // verus!
