//! The fatal errors that can stop the interpreter.

use vstd::prelude::*;

verus! {

/// A fatal condition met while executing an instruction: the two
/// reserved opcodes, a TRAP word whose vector names no service
/// routine, or a keyboard read that could not be served.
#[derive(Clone, Copy, Debug, PartialEq, Eq, Structural)]
pub enum VmError {
    /// The instruction word carried the RTI or the RES opcode.
    UnsupportedOpcode,
    /// The low eight bits of a TRAP word name no service routine.
    InvalidTrapVector,
    /// A byte was needed from standard input and none could be read.
    InputFailed,
}

} // verus!
