//! The instructions that the processor executes.

use crate::bits::Bits;
use crate::cpu::mode::{banked, CpuMode, REGISTERS, SAVED_STATUSES};
use vstd::prelude::*;

verus! {

/// How an address is made of a base register and an offset.
#[derive(Debug, Clone, Copy)]
pub struct Indexing {
    /// The base register.
    pub base: usize,
    /// Whether the offset is applied before the access.
    pub modify_first: bool,
    /// Whether the offset is subtracted.
    pub subtract: bool,
    /// Whether the modified address goes back to the base register.
    pub write_back: bool,
}

/// The distance that an operand is shifted by.
#[derive(Debug, Clone, Copy)]
pub enum OffsetShift {
    /// The low byte of a register.
    Register(usize),
    /// A constant.
    Immediate(u32),
}

/// The flexible operand of an instruction.
#[derive(Debug, Clone, Copy)]
pub enum Offset {
    /// A constant, and the carry that making it has left, if any.
    Immediate { value: u32, carry: Option<bool> },
    /// A register.
    Register(usize),
    /// A shifted register; the types are 0 for left, 1 for logical right, 2
    /// for arithmetic right, 3 for rotation to the right.
    ShiftedRegister { register: usize, shift_type: u8, shift: OffsetShift },
}

/// The width and sign of a half word transfer.
#[derive(Debug, Clone, Copy, PartialEq, Eq, Structural)]
pub enum HalfwordDataTransferMode {
    StoreHalfword,
    LoadUnsignedHalfword,
    LoadSignedByte,
    LoadSignedHalfword,
}

/// What a data processing instruction computes. The `Test` operations keep
/// only the flags.
#[derive(Debug, Clone, Copy, PartialEq, Eq, Structural)]
pub enum DataProcessingOpcode {
    And,
    Xor,
    Subtract,
    ReverseSubtract,
    Add,
    AddWithCarry,
    SubtractWithCarry,
    ReverseSubtractWithCarry,
    TestAnd,
    TestXor,
    TestSubtract,
    TestAdd,
    Or,
    Move,
    BitClear,
    MoveNot,
}

/// What a data processing instruction does to the status register.
#[derive(Debug, Clone, Copy)]
pub enum DataProcessingCpsr {
    Unchanged,
    SetFlags,
    /// Replaces it by the saved status register with this index.
    LoadSpsr(usize),
}

/// The registers that a block transfer moves: those whose bit is set, taken
/// from one bank, in the order of their numbers.
#[derive(Debug, Clone, Copy)]
pub struct RegisterList {
    pub bits: u16,
    pub bank: CpuMode,
}

impl RegisterList {
    /// The places of the listed registers with a number below `end`.
    pub open spec fn below(self, end: nat) -> Seq<usize>
        decreases end,
    {
        if end == 0 {
            Seq::empty()
        } else {
            let rest = self.below((end - 1) as nat);
            if self.bits.has_bit((end - 1) as u16) {
                rest.push(banked(self.bank, end - 1) as usize)
            } else {
                rest
            }
        }
    }

    /// The places of the listed registers.
    pub open spec fn places(self) -> Seq<usize> {
        self.below(16)
    }

    pub(crate) proof fn lemma_below(self, end: nat, whole: nat)
        requires
            end <= whole <= 16,
        ensures
            self.below(end).len() <= end,
            self.below(end).len() <= self.below(whole).len(),
            self.below(end) == self.below(whole).take(self.below(end).len() as int),
            forall|i: int| 0 <= i < self.below(whole).len() ==> #[trigger] self.below(whole)[i]
                < REGISTERS,
        decreases whole,
    {
        if whole > 0 {
            if end < whole {
                self.lemma_below(end, (whole - 1) as nat);
                assert(self.below(whole).take(self.below(end).len() as int) =~= self.below(
                    (whole - 1) as nat,
                ).take(self.below(end).len() as int));
            } else {
                self.lemma_below((whole - 1) as nat, (whole - 1) as nat);
                assert(self.below(whole).take(self.below(whole).len() as int) =~= self.below(
                    whole,
                ));
            }
        } else {
            assert(self.below(0).take(0) =~= self.below(0));
        }
    }

    /// The number of listed registers.
    pub fn len(&self) -> (r: u32)
        ensures
            r == self.places().len(),
            r <= 16,
    {
        let mut count: u32 = 0;
        let mut i: u16 = 0;
        while i < 16
            invariant
                i <= 16,
                count == self.below(i as nat).len(),
                count <= i,
            decreases 16 - i,
        {
            if self.bits.bit(i) {
                count += 1;
            }
            i += 1;
        }
        count
    }
}

/// An instruction, with the registers it names resolved to their places.
#[allow(inconsistent_fields)]
#[derive(Debug, Clone, Copy)]
pub enum Instruction {
    /// A software interrupt.
    Interrupt,
    /// A jump by an offset. In half word code a jump with a link register is
    /// the second half of a long call: it starts from the link register.
    Branch { offset: i32, link_register: Option<usize> },
    /// Reads the current or a saved status register.
    LoadPsr { spsr: Option<usize>, target: usize },
    /// Writes the masked bits of the current or a saved status register.
    StorePsr { spsr: Option<usize>, source: Offset, mask: u32 },
    /// Loads or stores several registers at consecutive words.
    BlockDataTransfer {
        load: bool,
        registers: RegisterList,
        load_spsr: Option<usize>,
        index: Indexing,
    },
    /// Loads or stores a word or a byte.
    SingleDataTransfer { load: bool, index: Indexing, target: usize, offset: Offset, byte: bool },
    /// Loads or stores a half word, or loads a signed byte.
    HalfwordDataTransfer {
        mode: HalfwordDataTransferMode,
        index: Indexing,
        target: usize,
        offset: Offset,
    },
    /// A jump to a register that also selects the instruction width.
    BranchAndExchange { register: usize },
    /// Exchanges a register with memory.
    SingleDataSwap { source: usize, target: usize, base: usize, byte: bool },
    /// A product of 32 bits.
    Multiply {
        operand1: usize,
        operand2: usize,
        accumulate: Option<usize>,
        target: usize,
        set_flags: bool,
    },
    /// A product of 64 bits.
    MultiplyLong {
        operand1: usize,
        operand2: usize,
        target_low: usize,
        target_high: usize,
        accumulate: bool,
        signed: bool,
        set_flags: bool,
    },
    /// An arithmetic or logical operation.
    DataProcessing {
        cpsr: DataProcessingCpsr,
        opcode: DataProcessingOpcode,
        operand1: usize,
        operand2: Offset,
        target: usize,
    },
}

/// Whether a place is one of a saved status register, if there is one.
pub open spec fn saved_in_range(spsr: Option<usize>) -> bool {
    spsr is Some ==> spsr->0 < SAVED_STATUSES
}

impl Offset {
    /// Whether the operand names registers that exist and a shift that is
    /// defined: a shift to the right by no bit is written as one to the left.
    pub open spec fn well_formed(self) -> bool {
        match self {
            Offset::Immediate { value, carry } => true,
            Offset::Register(register) => register < REGISTERS,
            Offset::ShiftedRegister { register, shift_type, shift } => {
                &&& register < REGISTERS
                &&& shift_type < 4
                &&& match shift {
                    OffsetShift::Register(distance) => distance < REGISTERS,
                    OffsetShift::Immediate(distance) => distance == 0 ==> shift_type == 0
                        || shift_type == 3,
                }
            },
        }
    }
}

impl Instruction {
    /// Whether the instruction names only registers that exist.
    pub open spec fn well_formed(self) -> bool {
        match self {
            Instruction::Interrupt => true,
            Instruction::Branch { offset, link_register } => link_register is Some
                ==> link_register->0 < REGISTERS,
            Instruction::LoadPsr { spsr, target } => saved_in_range(spsr) && target < REGISTERS,
            Instruction::StorePsr { spsr, source, mask } => saved_in_range(spsr)
                && source.well_formed(),
            Instruction::BlockDataTransfer { load, registers, load_spsr, index } => saved_in_range(
                load_spsr,
            ) && index.base < REGISTERS,
            Instruction::SingleDataTransfer { load, index, target, offset, byte } => index.base
                < REGISTERS && target < REGISTERS && offset.well_formed(),
            Instruction::HalfwordDataTransfer { mode, index, target, offset } => index.base
                < REGISTERS && target < REGISTERS && offset.well_formed(),
            Instruction::BranchAndExchange { register } => register < REGISTERS,
            Instruction::SingleDataSwap { source, target, base, byte } => source < REGISTERS
                && target < REGISTERS && base < REGISTERS,
            Instruction::Multiply { operand1, operand2, accumulate, target, set_flags } => operand1
                < REGISTERS && operand2 < REGISTERS && target < REGISTERS && (accumulate is Some
                ==> accumulate->0 < REGISTERS),
            Instruction::MultiplyLong {
                operand1,
                operand2,
                target_low,
                target_high,
                accumulate,
                signed,
                set_flags,
            } => operand1 < REGISTERS && operand2 < REGISTERS && target_low < REGISTERS
                && target_high < REGISTERS,
            Instruction::DataProcessing { cpsr, opcode, operand1, operand2, target } => operand1
                < REGISTERS && target < REGISTERS && operand2.well_formed() && match cpsr {
                DataProcessingCpsr::LoadSpsr(spsr) => spsr < SAVED_STATUSES,
                DataProcessingCpsr::Unchanged => true,
                DataProcessingCpsr::SetFlags => true,
            },
        }
    }
}

} // verus!
