//! The TRAP service routines: console input and output, and HALT.

use vstd::prelude::*;

use crate::console;
use crate::error::VmError;
use crate::lc3_virtual_machine::LC3VirtualMachine;
use crate::register::Register;
use crate::semantics::{
    keyboard_evolved, lemma_keyboard_evolved_read, low_bytes, packed_bytes, print_string_rel,
    read_character_rel, scan_avoids_keyboard, scanned_words, terminated_string_length,
    trap_service_rel, valid_trap_vector, with_regs, wrap_add, KEYBOARD_STATUS_ADDRESS,
    MEMORY_SIZE,
};

verus! {

/// A name for each trap service routine.
#[derive(Clone, Copy, Debug, PartialEq, Eq, Structural)]
pub enum Trap {
    /// Read one character into R0, without echo.
    GETC,
    /// Print the character in R0's low byte.
    OUT,
    /// Print the zero-terminated string of words at R0, one character
    /// per word.
    PUTS,
    /// Prompt for a character and read it into R0.
    IN,
    /// Print the zero-terminated string of words at R0, two packed
    /// characters per word.
    PUTSP,
    /// End execution.
    HALT,
}

impl Trap {
    /// The vector this routine answers to.
    pub open spec fn spec_vector(self) -> u16 {
        match self {
            Trap::GETC => 0x20,
            Trap::OUT => 0x21,
            Trap::PUTS => 0x22,
            Trap::IN => 0x23,
            Trap::PUTSP => 0x24,
            Trap::HALT => 0x25,
        }
    }

    /// The routine a trap vector names, if it names one.
    pub fn from_vector(value: u16) -> (r: Option<Trap>)
        ensures
            (match r {
                Some(trap) => valid_trap_vector(value) && trap.spec_vector() == value,
                None => !valid_trap_vector(value),
            }),
    {
        match value {
            0x20 => Some(Trap::GETC),
            0x21 => Some(Trap::OUT),
            0x22 => Some(Trap::PUTS),
            0x23 => Some(Trap::IN),
            0x24 => Some(Trap::PUTSP),
            0x25 => Some(Trap::HALT),
            _ => None,
        }
    }

    /// Run this service routine against the machine.
    pub fn execute_trap(&self, virtual_machine: &mut LC3VirtualMachine) -> (r: Result<
        (),
        VmError,
    >)
        ensures
            trap_service_rel(old(virtual_machine)@, self.spec_vector(), final(virtual_machine)@, r),
    {
        match self {
            Trap::GETC => getc(virtual_machine),
            Trap::HALT => {
                virtual_machine.halt();
                Ok(())
            },
            Trap::IN => in_trap(virtual_machine),
            Trap::OUT => {
                out(virtual_machine);
                Ok(())
            },
            Trap::PUTS => puts(virtual_machine),
            Trap::PUTSP => putsp(virtual_machine),
        }
    }
}

/// GETC: one byte from standard input goes to R0.  No echo, no flag
/// update.
fn getc(virtual_machine: &mut LC3VirtualMachine) -> (r: Result<(), VmError>)
    ensures
        read_character_rel(old(virtual_machine)@, final(virtual_machine)@, r),
{
    match console::read_byte_from_stdin() {
        Some(byte) => {
            virtual_machine.update_register(Register::R0, byte as u16);
            proof {
                assert(virtual_machine@ == with_regs(
                    old(virtual_machine)@,
                    old(virtual_machine)@.regs.update(0, byte as u16),
                ));
            }
            Ok(())
        },
        None => Err(VmError::InputFailed),
    }
}

/// IN: prompt, then one byte from standard input goes to R0.
fn in_trap(virtual_machine: &mut LC3VirtualMachine) -> (r: Result<(), VmError>)
    ensures
        read_character_rel(old(virtual_machine)@, final(virtual_machine)@, r),
{
    console::write_line_to_stdout("Enter a character: ");
    getc(virtual_machine)
}

/// OUT: the low byte of R0 is printed as a character.
fn out(virtual_machine: &mut LC3VirtualMachine)
    ensures
        final(virtual_machine)@ == old(virtual_machine)@,
{
    let word = virtual_machine.read_register(Register::R0);
    console::put_char_to_stdout(word as u8);
}

/// Walk the string at `start`: collect each word strictly before the
/// first zero word, scanning at most one full pass over the memory.
/// When the string ends in a zero word and no scanned address is the
/// keyboard status word, the scan polls nothing: it succeeds, leaves
/// the memory untouched, and returns exactly the string's words.
fn scan_string_words(virtual_machine: &mut LC3VirtualMachine, start: u16) -> (r: Result<
    Vec<u16>,
    VmError,
>)
    ensures
        final(virtual_machine)@.regs == old(virtual_machine)@.regs,
        final(virtual_machine)@.halted == old(virtual_machine)@.halted,
        keyboard_evolved(old(virtual_machine)@.mem, final(virtual_machine)@.mem),
        r is Err ==> r == Err::<Vec<u16>, VmError>(VmError::InputFailed),
        forall|count: u16|
            #[trigger] terminated_string_length(old(virtual_machine)@.mem, start, count)
                && scan_avoids_keyboard(start, count) ==> r is Ok && final(virtual_machine)@.mem
                == old(virtual_machine)@.mem && r->Ok_0@ == scanned_words(
                old(virtual_machine)@.mem,
                start,
                count as int,
            ),
{
    let ghost s0 = virtual_machine@;
    proof {
        use_type_invariant(&*virtual_machine);
    }
    let mut words: Vec<u16> = Vec::new();
    let mut read_index = start;
    let mut scanned: u32 = 0;
    let ghost mut clean: bool = true;
    let ghost mut hit: u16 = 0;
    while scanned < 0x10000
        invariant
            s0 == old(virtual_machine)@,
            s0.mem.len() == MEMORY_SIZE,
            scanned <= 0x10000,
            virtual_machine@.regs == s0.regs,
            virtual_machine@.halted == s0.halted,
            keyboard_evolved(s0.mem, virtual_machine@.mem),
            scanned < 0x10000 ==> read_index == wrap_add(start, scanned as u16),
            words@.len() == scanned,
            clean ==> virtual_machine@.mem == s0.mem,
            clean ==> words@ == scanned_words(s0.mem, start, scanned as int),
            clean ==> forall|j: u16|
                (j as u32) < scanned ==> s0.mem[#[trigger] wrap_add(start, j) as int] != 0
                    && wrap_add(start, j) != KEYBOARD_STATUS_ADDRESS,
            !clean ==> wrap_add(start, hit) == KEYBOARD_STATUS_ADDRESS && (hit as u32) < scanned
                && (forall|j: u16| j < hit ==> s0.mem[#[trigger] wrap_add(start, j) as int] != 0),
        decreases 0x10000 - scanned,
    {
        let ghost before = virtual_machine@.mem;
        match virtual_machine.memory_read(read_index) {
            Ok(word) => {
                proof {
                    lemma_keyboard_evolved_read(
                        s0.mem,
                        before,
                        read_index,
                        virtual_machine@.mem,
                        word,
                    );
                }
                if word == 0 {
                    proof {
                        assert forall|count: u16|
                            #[trigger] terminated_string_length(s0.mem, start, count)
                                && scan_avoids_keyboard(start, count) implies virtual_machine@.mem
                            == s0.mem && words@ == scanned_words(s0.mem, start, count as int) by {
                            if clean {
                                if read_index != KEYBOARD_STATUS_ADDRESS {
                                    assert(s0.mem[wrap_add(start, scanned as u16) as int] == 0);
                                    if (count as u32) < scanned {
                                        assert(s0.mem[wrap_add(start, count) as int] != 0);
                                        assert(false);
                                    } else if (count as u32) > scanned {
                                        assert(s0.mem[wrap_add(start, scanned as u16) as int]
                                            != 0);
                                        assert(false);
                                    }
                                } else {
                                    if (count as u32) >= scanned {
                                        assert(wrap_add(start, scanned as u16)
                                            != KEYBOARD_STATUS_ADDRESS);
                                        assert(false);
                                    } else {
                                        assert(s0.mem[wrap_add(start, count) as int] != 0);
                                        assert(false);
                                    }
                                }
                            } else {
                                if count < hit {
                                    assert(s0.mem[wrap_add(start, count) as int] != 0);
                                    assert(false);
                                } else {
                                    assert(wrap_add(start, hit) != KEYBOARD_STATUS_ADDRESS);
                                    assert(false);
                                }
                            }
                        }
                    }
                    return Ok(words);
                }
                words.push(word);
                proof {
                    if clean && read_index == KEYBOARD_STATUS_ADDRESS {
                        clean = false;
                        hit = scanned as u16;
                    } else if clean {
                        assert(s0.mem[wrap_add(start, scanned as u16) as int] != 0);
                        assert(words@ =~= scanned_words(s0.mem, start, scanned as int + 1));
                    }
                }
                proof {
                    if scanned < 0xFFFF {
                        assert(scanned as u16 as u32 == scanned);
                        assert((scanned + 1) as u16 == scanned as u16 + 1);
                        assert(wrap_add(wrap_add(start, scanned as u16), 1) == wrap_add(
                            start,
                            (scanned + 1) as u16,
                        ));
                    }
                }
                read_index = read_index.wrapping_add(1);
                scanned = scanned + 1;
            },
            Err(e) => {
                proof {
                    assert forall|count: u16|
                        #[trigger] terminated_string_length(s0.mem, start, count)
                            && scan_avoids_keyboard(start, count) implies false by {
                        if clean {
                            if (count as u32) >= scanned {
                                assert(wrap_add(start, scanned as u16)
                                    != KEYBOARD_STATUS_ADDRESS);
                            } else {
                                assert(s0.mem[wrap_add(start, count) as int] != 0);
                            }
                        } else {
                            if count < hit {
                                assert(s0.mem[wrap_add(start, count) as int] != 0);
                            } else {
                                assert(wrap_add(start, hit) != KEYBOARD_STATUS_ADDRESS);
                            }
                        }
                    }
                }
                return Err(e);
            },
        }
    }
    proof {
        assert forall|count: u16|
            #[trigger] terminated_string_length(s0.mem, start, count) && scan_avoids_keyboard(
                start,
                count,
            ) implies false by {
            if clean {
                assert(s0.mem[wrap_add(start, count) as int] != 0);
            } else {
                if count < hit {
                    assert(s0.mem[wrap_add(start, count) as int] != 0);
                } else {
                    assert(wrap_add(start, hit) != KEYBOARD_STATUS_ADDRESS);
                }
            }
        }
    }
    Ok(words)
}

/// The bytes PUTS prints for the scanned words: each word's low byte.
pub fn low_bytes_of_words(words: &Vec<u16>) -> (r: Vec<u8>)
    ensures
        r@ == low_bytes(words@),
{
    let mut bytes: Vec<u8> = Vec::new();
    let mut index: usize = 0;
    while index < words.len()
        invariant
            index <= words@.len(),
            bytes@.len() == index,
            forall|j: int| 0 <= j < index ==> bytes@[j] == (words@[j] & 0xFF) as u8,
        decreases words@.len() - index,
    {
        bytes.push((words[index] & 0xFF) as u8);
        index = index + 1;
    }
    proof {
        assert(bytes@ =~= low_bytes(words@));
    }
    bytes
}

/// The bytes PUTSP prints for the scanned words: each word's low
/// byte, then its high byte unless that byte is zero.
pub fn packed_bytes_of_words(words: &Vec<u16>) -> (r: Vec<u8>)
    ensures
        r@ == packed_bytes(words@),
{
    let mut bytes: Vec<u8> = Vec::new();
    let mut index: usize = 0;
    while index < words.len()
        invariant
            index <= words@.len(),
            bytes@ == packed_bytes(words@.subrange(0, index as int)),
        decreases words@.len() - index,
    {
        let word = words[index];
        bytes.push((word & 0xFF) as u8);
        if word >> 8 != 0 {
            bytes.push(#[verifier::truncate] ((word >> 8) as u8));
        }
        proof {
            assert(words@.subrange(0, index as int + 1).drop_last() =~= words@.subrange(
                0,
                index as int,
            ));
            assert(bytes@ =~= packed_bytes(words@.subrange(0, index as int + 1)));
        }
        index = index + 1;
    }
    proof {
        assert(words@.subrange(0, words@.len() as int) =~= words@);
    }
    bytes
}

/// Print each byte as the character with that code.
fn print_bytes_to_stdout(bytes: &Vec<u8>) {
    let mut index: usize = 0;
    while index < bytes.len()
        invariant
            index <= bytes@.len(),
        decreases bytes@.len() - index,
    {
        console::put_char_to_stdout(bytes[index]);
        index = index + 1;
    }
}

/// PUTS: print one character per word, starting at the address in
/// R0, up to the first zero word; then flush.  The scan stops after
/// one full pass over the memory when no zero word ends the string.
fn puts(virtual_machine: &mut LC3VirtualMachine) -> (r: Result<(), VmError>)
    ensures
        print_string_rel(old(virtual_machine)@, final(virtual_machine)@, r),
{
    let start = virtual_machine.read_register(Register::R0);
    match scan_string_words(virtual_machine, start) {
        Ok(words) => {
            let bytes = low_bytes_of_words(&words);
            print_bytes_to_stdout(&bytes);
            console::flush_stdout();
            proof {
                assert forall|count: u16|
                    #[trigger] terminated_string_length(
                        old(virtual_machine)@.mem,
                        old(virtual_machine)@.regs[0],
                        count,
                    ) && scan_avoids_keyboard(old(virtual_machine)@.regs[0], count)
                    implies virtual_machine@ == old(virtual_machine)@ by {
                    assert(terminated_string_length(old(virtual_machine)@.mem, start, count));
                    assert(virtual_machine@ =~= old(virtual_machine)@);
                }
            }
            Ok(())
        },
        Err(e) => {
            proof {
                assert forall|count: u16|
                    #[trigger] terminated_string_length(
                        old(virtual_machine)@.mem,
                        old(virtual_machine)@.regs[0],
                        count,
                    ) && scan_avoids_keyboard(old(virtual_machine)@.regs[0], count)
                    implies false by {
                    assert(terminated_string_length(old(virtual_machine)@.mem, start, count));
                }
            }
            Err(e)
        },
    }
}

/// PUTSP: as PUTS, but each word packs two characters, the low byte
/// first; a zero high byte beside a nonzero low byte is not printed.
fn putsp(virtual_machine: &mut LC3VirtualMachine) -> (r: Result<(), VmError>)
    ensures
        print_string_rel(old(virtual_machine)@, final(virtual_machine)@, r),
{
    let start = virtual_machine.read_register(Register::R0);
    match scan_string_words(virtual_machine, start) {
        Ok(words) => {
            let bytes = packed_bytes_of_words(&words);
            print_bytes_to_stdout(&bytes);
            console::flush_stdout();
            proof {
                assert forall|count: u16|
                    #[trigger] terminated_string_length(
                        old(virtual_machine)@.mem,
                        old(virtual_machine)@.regs[0],
                        count,
                    ) && scan_avoids_keyboard(old(virtual_machine)@.regs[0], count)
                    implies virtual_machine@ == old(virtual_machine)@ by {
                    assert(terminated_string_length(old(virtual_machine)@.mem, start, count));
                    assert(virtual_machine@ =~= old(virtual_machine)@);
                }
            }
            Ok(())
        },
        Err(e) => {
            proof {
                assert forall|count: u16|
                    #[trigger] terminated_string_length(
                        old(virtual_machine)@.mem,
                        old(virtual_machine)@.regs[0],
                        count,
                    ) && scan_avoids_keyboard(old(virtual_machine)@.regs[0], count)
                    implies false by {
                    assert(terminated_string_length(old(virtual_machine)@.mem, start, count));
                }
            }
            Err(e)
        },
    }
}

} // verus!
