//! The LC-3 instruction set with every immediate and offset a sign-extended field of its own
//! width.
use vstd::prelude::*;

verus! {

use crate::bits::LimitedBit;

/// Arithmetic and logic instructions.
#[derive(Clone, Copy, Debug, PartialEq, Eq)]
pub enum Arithmetic<R> {
    /// `dr := sr1 + sr2`, wrapping.
    ADD {
        /// Destination register.
        dr: R,
        /// First source register.
        sr1: R,
        /// Second source register.
        sr2: R,
    },
    /// `dr := sr1 + imm5`, wrapping.
    ADDI {
        /// Destination register.
        dr: R,
        /// First source register.
        sr1: R,
        /// Immediate.
        imm5: LimitedBit<u16, 5>,
    },
    /// `dr := sr1 & sr2`.
    AND {
        /// Destination register.
        dr: R,
        /// First source register.
        sr1: R,
        /// Second source register.
        sr2: R,
    },
    /// `dr := sr1 & imm5`.
    ANDI {
        /// Destination register.
        dr: R,
        /// First source register.
        sr1: R,
        /// Immediate.
        imm5: LimitedBit<u16, 5>,
    },
    /// `dr := !sr`.
    NOT {
        /// Destination register.
        dr: R,
        /// Source register.
        sr: R,
    },
}

/// Control-flow instructions.
#[derive(Clone, Copy, Debug, PartialEq, Eq)]
pub enum Control<R> {
    /// Conditional branch.
    BR {
        /// On negative.
        n: bool,
        /// On zero.
        z: bool,
        /// On positive.
        p: bool,
        /// Offset of the target.
        pc_offset9: LimitedBit<u16, 9>,
    },
    /// Jump to the address in a register.
    JMP {
        /// Source register.
        base_r: R,
    },
    /// Jump to a subroutine at a PC-relative address.
    JSR {
        /// Offset of the target.
        pc_offset11: LimitedBit<u16, 11>,
    },
    /// Jump to a subroutine at the address in a register.
    JSRR {
        /// Source register.
        base_r: R,
    },
    /// Return from a subroutine.
    RET,
    /// Return from an interrupt.
    RTI,
}

/// Load and store instructions.
#[derive(Clone, Copy, Debug, PartialEq, Eq)]
pub enum LoadStore<R> {
    /// Load from a PC-relative address.
    LD {
        /// Destination register.
        dr: R,
        /// Offset of the address.
        pc_offset9: LimitedBit<u16, 9>,
    },
    /// Load from a base register plus an offset.
    LDR {
        /// Destination register.
        dr: R,
        /// Base register.
        base_r: R,
        /// Offset from the base.
        offset6: LimitedBit<u16, 6>,
    },
    /// Load through a pointer at a PC-relative address.
    LDI {
        /// Destination register.
        dr: R,
        /// Offset of the pointer's address.
        pc_offset9: LimitedBit<u16, 9>,
    },
    /// Load a PC-relative address itself; no memory access.
    LEA {
        /// Destination register.
        dr: R,
        /// Offset of the address.
        pc_offset9: LimitedBit<u16, 9>,
    },
    /// Store to a PC-relative address.
    ST {
        /// Source register.
        sr: R,
        /// Offset of the address.
        pc_offset9: LimitedBit<u16, 9>,
    },
    /// Store to a base register plus an offset.
    STR {
        /// Source register.
        sr: R,
        /// Base register.
        base_r: R,
        /// Offset from the base.
        offset6: LimitedBit<u16, 6>,
    },
    /// Store through a pointer at a PC-relative address.
    STI {
        /// Source register.
        sr: R,
        /// Offset of the pointer's address.
        pc_offset9: LimitedBit<u16, 9>,
    },
}

/// A system call.
#[derive(Clone, Copy, Debug, PartialEq, Eq)]
pub struct Trap {
    /// The trap vector.
    pub trap_vect8: LimitedBit<u16, 8>,
}

/// A reserved opcode.
#[derive(Clone, Copy, Debug, PartialEq, Eq)]
pub struct Reserved {}

/// An LC-3 instruction.
#[derive(Clone, Copy, Debug, PartialEq, Eq)]
pub enum Instruction<R> {
    /// Arithmetic and logic.
    Arithmetic(Arithmetic<R>),
    /// Control flow.
    Control(Control<R>),
    /// Loads and stores.
    LoadStore(LoadStore<R>),
    /// System call.
    Trap(Trap),
    /// Reserved opcode.
    Reserved(Reserved),
}

} // verus!
