//! The decisions of the debug channel and of the interactive
//! console: parse one command line, drive the machine, and word the
//! reply.  The transports that carry the lines live outside.

use vstd::prelude::*;

use crate::error::VmError;
use crate::lc3_virtual_machine::LC3VirtualMachine;
use crate::register::Register;
use crate::semantics::{
    decode_rel, pc_of, read_step, step_rel, steps_rel, with_mem, MachineState,
    KEYBOARD_STATUS_ADDRESS,
};
use crate::text::{
    binary_chars, decimal_chars, parse_u16_binary, parse_u16_binary_spec, parse_u16_decimal,
    parse_u16_decimal_spec, push_binary, push_decimal, register_dump_chars,
};

verus! {

/// What one debug command does to the machine and the reply it
/// earns: `n` steps once and reports the word now under the program
/// counter; `r` reports the register dump; a decimal number runs
/// that many steps; anything else is an invalid command.
pub open spec fn debug_command_rel(
    s0: MachineState,
    command: Seq<char>,
    s1: MachineState,
    outcome: Result<Seq<char>, VmError>,
) -> bool {
    if command == seq!['n'] {
        match outcome {
            Ok(reply) => exists|mid: MachineState, m2: Seq<u16>, word: u16|
                step_rel(s0, mid, Ok::<(), VmError>(())) && #[trigger] read_step(
                    mid.mem,
                    pc_of(mid),
                    m2,
                    word,
                ) && s1 == with_mem(mid, m2) && reply == "instruction: 0b"@ + binary_chars(word),
            Err(e) => step_rel(s0, s1, Err::<(), VmError>(e)) || (exists|mid: MachineState|
                #[trigger] step_rel(s0, mid, Ok::<(), VmError>(())) && pc_of(mid)
                    == KEYBOARD_STATUS_ADDRESS && s1 == mid && e == VmError::InputFailed),
        }
    } else if command == seq!['r'] {
        s1 == s0 && outcome == Ok::<Seq<char>, VmError>(register_dump_chars(s0.regs))
    } else {
        match parse_u16_decimal_spec(command) {
            Some(count) => match outcome {
                Ok(reply) => steps_rel(count as nat, s0, s1) && reply == "executed "@
                    + decimal_chars(count) + " instructions"@,
                Err(e) => exists|completed: nat, mid: MachineState|
                    completed < count && #[trigger] steps_rel(completed, s0, mid) && step_rel(
                        mid,
                        s1,
                        Err::<(), VmError>(e),
                    ),
            },
            None => s1 == s0 && outcome == Ok::<Seq<char>, VmError>("Invalid Command"@),
        }
    }
}

/// Serve one debug command, already trimmed to its text.
pub fn handle_debug_command(virtual_machine: &mut LC3VirtualMachine, command: &str) -> (r: Result<
    String,
    VmError,
>)
    ensures
        (match r {
            Ok(reply) => debug_command_rel(
                old(virtual_machine)@,
                command@,
                final(virtual_machine)@,
                Ok(reply@),
            ),
            Err(e) => debug_command_rel(
                old(virtual_machine)@,
                command@,
                final(virtual_machine)@,
                Err(e),
            ),
        }),
{
    let length = command.unicode_len();
    if length == 1 && command.get_char(0) == 'n' {
        proof {
            assert(command@ =~= seq!['n']);
        }
        match virtual_machine.next_instruction() {
            Ok(()) => {
                let ghost mid = virtual_machine@;
                let program_counter = virtual_machine.read_register(Register::ProgramCounter);
                match virtual_machine.memory_read(program_counter) {
                    Ok(word) => {
                        let mut reply = String::from_str("instruction: 0b");
                        push_binary(&mut reply, word);
                        proof {
                            assert(read_step(mid.mem, pc_of(mid), virtual_machine@.mem, word));
                            assert(virtual_machine@ =~= with_mem(mid, virtual_machine@.mem));
                        }
                        Ok(reply)
                    },
                    Err(e) => {
                        proof {
                            assert(step_rel(old(virtual_machine)@, mid, Ok::<(), VmError>(())));
                            assert(pc_of(mid) == KEYBOARD_STATUS_ADDRESS && virtual_machine@ == mid);
                        }
                        Err(e)
                    },
                }
            },
            Err(e) => Err(e),
        }
    } else if length == 1 && command.get_char(0) == 'r' {
        proof {
            assert(command@ =~= seq!['r']);
        }
        Ok(virtual_machine.state_of_registers())
    } else {
        match parse_u16_decimal(command) {
            Some(amount_of_instructions) => {
                match virtual_machine.next_instructions(amount_of_instructions) {
                    Ok(()) => {
                        let mut reply = String::from_str("executed ");
                        push_decimal(&mut reply, amount_of_instructions);
                        reply.append(" instructions");
                        Ok(reply)
                    },
                    Err(e) => Err(e),
                }
            },
            None => Ok(String::from_str("Invalid Command")),
        }
    }
}

/// The interactive console's answer to one input line.
pub enum InteractiveReply {
    /// The register dump, for the caller to print one register per
    /// line.
    Registers(String),
    /// The echo of the instruction word that was just executed.
    Instruction(String),
    /// The line was neither `r` nor a binary instruction word.
    WrongFormat,
}

/// What one interactive line does to the machine and the answer it
/// earns: `r` reports the register dump; a binary instruction word
/// is executed once and echoed; anything else is malformed.
pub open spec fn interactive_rel(
    s0: MachineState,
    line: Seq<char>,
    s1: MachineState,
    outcome: Result<InteractiveReply, VmError>,
) -> bool {
    if line == seq!['r'] {
        s1 == s0 && match outcome {
            Ok(InteractiveReply::Registers(dump)) => dump@ == register_dump_chars(s0.regs),
            _ => false,
        }
    } else {
        match parse_u16_binary_spec(line) {
            Some(word) => match outcome {
                Ok(InteractiveReply::Instruction(echo)) => decode_rel(
                    s0,
                    word,
                    s1,
                    Ok::<(), VmError>(()),
                ) && echo@ == "instruction proccess: 0b"@ + binary_chars(word),
                Err(e) => decode_rel(s0, word, s1, Err::<(), VmError>(e)),
                _ => false,
            },
            None => s1 == s0 && outcome matches Ok(InteractiveReply::WrongFormat),
        }
    }
}

/// Serve one interactive console line.
pub fn handle_interactive_line(virtual_machine: &mut LC3VirtualMachine, line: &str) -> (r: Result<
    InteractiveReply,
    VmError,
>)
    ensures
        interactive_rel(old(virtual_machine)@, line@, final(virtual_machine)@, r),
{
    let length = line.unicode_len();
    if length == 1 && line.get_char(0) == 'r' {
        proof {
            assert(line@ =~= seq!['r']);
        }
        Ok(InteractiveReply::Registers(virtual_machine.state_of_registers()))
    } else {
        match parse_u16_binary(line) {
            Some(instruction) => {
                match virtual_machine.decode_instruction(instruction) {
                    Ok(()) => {
                        let mut echo = String::from_str("instruction proccess: 0b");
                        push_binary(&mut echo, instruction);
                        Ok(InteractiveReply::Instruction(echo))
                    },
                    Err(e) => Err(e),
                }
            },
            None => Ok(InteractiveReply::WrongFormat),
        }
    }
}

} // verus!
