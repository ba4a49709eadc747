//! The LC-3 instruction set, with register operands of type `R` and PC-relative offsets of type
//! `L`. Immediates and base offsets are fields of a fixed number of bits.
use vstd::prelude::*;

verus! {

use crate::bits::{LimitedU16, LimitedU8};

/// Arithmetic and logic instructions.
#[derive(Clone, Copy, Debug, PartialEq, Eq)]
pub enum ArithmeticInstructions<R> {
    /// `dr := sr1 + sr2`, wrapping.
    ADD {
        /// Destination register.
        dr: R,
        /// First operand.
        sr1: R,
        /// Second operand.
        sr2: R,
    },
    /// `dr := sr1 + imm5`, wrapping, with `imm5` sign-extended.
    ADDI {
        /// Destination register.
        dr: R,
        /// First operand.
        sr1: R,
        /// Second operand, an immediate of five bits.
        imm5: LimitedU8<5>,
    },
    /// `dr := sr1 & sr2`.
    AND {
        /// Destination register.
        dr: R,
        /// First operand.
        sr1: R,
        /// Second operand.
        sr2: R,
    },
    /// `dr := sr1 & imm5`, with `imm5` sign-extended.
    ANDI {
        /// Destination register.
        dr: R,
        /// First operand.
        sr1: R,
        /// Second operand, an immediate of five bits.
        imm5: LimitedU8<5>,
    },
    /// `dr := !sr`.
    NOT {
        /// Destination register.
        dr: R,
        /// Operand.
        sr: R,
    },
}

/// Control-flow instructions.
#[derive(Clone, Copy, Debug, PartialEq, Eq)]
pub enum ControlInstructions<L, R> {
    /// Conditional branch on the condition codes.
    BR {
        /// Branch if negative.
        n: bool,
        /// Branch if zero.
        z: bool,
        /// Branch if positive.
        p: bool,
        /// Offset of the target.
        pc_offset9: L,
    },
    /// Jump to the address in a register.
    JMP {
        /// The register holding the target.
        base_r: R,
    },
    /// Jump to a subroutine, saving the return address in R7.
    JSR {
        /// Offset of the target.
        pc_offset11: L,
    },
    /// Jump to a subroutine at the address in a register, saving the return address in R7.
    JSRR {
        /// The register holding the target.
        base_r: R,
    },
    /// Return from a subroutine, to the address in R7.
    RET,
    /// Return from an interrupt.
    RTI,
    /// System call.
    TRAP {
        /// The trap vector.
        trap_vect8: LimitedU8<8>,
    },
}

/// Load and store instructions.
#[derive(Clone, Copy, Debug, PartialEq, Eq)]
pub enum LoadStoreInstructions<L, R> {
    /// Load from a PC-relative address.
    LD {
        /// Destination register.
        dr: R,
        /// Offset of the address.
        pc_offset9: L,
    },
    /// Load through a pointer at a PC-relative address.
    LDI {
        /// Destination register.
        dr: R,
        /// Offset of the pointer's address.
        pc_offset9: L,
    },
    /// Load from a base register plus an offset.
    LDR {
        /// Destination register.
        dr: R,
        /// Base register.
        base_r: R,
        /// Offset from the base.
        offset6: LimitedU8<6>,
    },
    /// Load a PC-relative address itself, without a memory access.
    LEA {
        /// Destination register.
        dr: R,
        /// Offset of the address.
        pc_offset9: L,
    },
    /// Store to a PC-relative address.
    ST {
        /// Source register.
        sr: R,
        /// Offset of the address.
        pc_offset9: L,
    },
    /// Store through a pointer at a PC-relative address.
    STI {
        /// Source register.
        sr: R,
        /// Offset of the pointer's address.
        pc_offset9: L,
    },
    /// Store to a base register plus an offset.
    STR {
        /// Source register.
        sr: R,
        /// Base register.
        base_r: R,
        /// Offset from the base.
        offset6: LimitedU8<6>,
    },
}

/// An instruction word of an unused opcode, with its twelve operand bits.
#[derive(Clone, Copy, Debug, PartialEq, Eq)]
pub struct UnusedInstruction(pub LimitedU16<12>);

/// An LC-3 instruction.
#[derive(Clone, Copy, Debug, PartialEq, Eq)]
pub enum LC3Instructions<L, R> {
    /// Arithmetic and logic.
    Arithmetic(ArithmeticInstructions<R>),
    /// Control flow.
    Control(ControlInstructions<L, R>),
    /// Loads and stores.
    LoadStore(LoadStoreInstructions<L, R>),
    /// An unused opcode.
    Unused(UnusedInstruction),
}

} // verus!
