//! An LC-3 virtual machine: a fetch-decode-execute interpreter for the
//! 16-bit LC-3 instruction set, with a word-addressed memory, a
//! memory-mapped keyboard, TRAP service routines for console I/O, a
//! big-endian image loader, and a single-step debug command handler.

mod console;
pub mod debug;
pub mod error;
pub mod instructions;
pub mod laws;
pub mod lc3_virtual_machine;
pub mod loader;
pub mod register;
pub mod semantics;
pub mod text;
pub mod trap;

pub use error::VmError;
