//! An instruction-level simulator for a small 16-bit processor of the LC-3 family.
//!
//! The library is built from a few layers: bit-limited operand fields, storage cells with a
//! uniform load/store contract, diffs and a history journal that records every mutation, the
//! instruction set, and a processor whose `step` runs one fetch-decode-execute cycle.
pub mod architecture;
pub mod assembly;
pub mod bits;
pub mod database;
pub mod diff;
pub mod instructions;
pub mod journal;
pub mod processor;
