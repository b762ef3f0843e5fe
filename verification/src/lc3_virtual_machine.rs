//! The machine itself: the register file, the 2^16-word memory with
//! its memory-mapped keyboard, and the fetch step.

use vstd::prelude::*;

use crate::console;
use crate::error::VmError;
use crate::instructions;
use crate::instructions::Instruction;
use crate::register::{Register, Registers};
use crate::semantics::{
    decode_rel, flag_for, initial_state, lemma_instruction_fields, lemma_steps_rel_snoc, pc_of,
    poll_mem, read_step, sext, state_wf, step_rel, steps_rel, with_mem, with_regs, wrap_add,
    MachineState, AMOUNT_OF_REGISTERS, CONDITION_FLAG_INDEX, KEYBOARD_DATA_ADDRESS,
    KEYBOARD_STATUS_ADDRESS, MEMORY_SIZE, PROGRAM_COUNTER_INDEX,
};
use crate::text::register_dump_chars;
use crate::trap::Trap;

verus! {

/// The machine state an LC-3 program runs against.
pub struct LC3VirtualMachine {
    registers: Registers,
    memory: Vec<u16>,
    halted: bool,
}

impl View for LC3VirtualMachine {
    type V = MachineState;

    closed spec fn view(&self) -> MachineState {
        MachineState { regs: self.registers@, mem: self.memory@, halted: self.halted }
    }
}

impl LC3VirtualMachine {
    #[verifier::type_invariant]
    pub(crate) open spec fn type_inv(&self) -> bool {
        state_wf(self@)
    }

    /// A machine at power-on: registers and memory zero, the program
    /// counter at its starting address, not halted.
    pub fn new(program_counter_start: u16) -> (vm: LC3VirtualMachine)
        ensures
            vm@ == initial_state(program_counter_start),
    {
        let vm = LC3VirtualMachine {
            registers: Registers::new(program_counter_start),
            memory: vec![0u16; MEMORY_SIZE],
            halted: false,
        };
        proof {
            assert(vm@.mem =~= initial_state(program_counter_start).mem);
            assert(vm@ =~= initial_state(program_counter_start));
        }
        vm
    }

    /// End execution: the machine keeps its state but steps no more.
    pub fn halt(&mut self)
        ensures
            final(self)@ == (MachineState { halted: true, ..old(self)@ }),
    {
        proof {
            use_type_invariant(&*self);
        }
        self.halted = true;
    }

    /// Whether the HALT trap has ended execution.
    pub fn is_halted(&self) -> (halted: bool)
        ensures
            halted == self@.halted,
    {
        self.halted
    }

    /// The word a register holds.
    pub fn read_register(&self, source_register: Register) -> (value: u16)
        ensures
            value == self@.regs[source_register.as_index()],
    {
        self.registers.read_register(source_register)
    }

    /// Store a word in a register.
    pub fn update_register(&mut self, destination_register: Register, new_register_value: u16)
        ensures
            final(self)@ == with_regs(
                old(self)@,
                old(self)@.regs.update(destination_register.as_index(), new_register_value),
            ),
    {
        proof {
            use_type_invariant(&*self);
        }
        self.registers.update_register(destination_register, new_register_value);
    }

    /// Set the condition flag to describe the word `register` holds.
    pub fn update_flags(&mut self, register: Register)
        ensures
            final(self)@ == with_regs(
                old(self)@,
                old(self)@.regs.update(
                    CONDITION_FLAG_INDEX as int,
                    flag_for(old(self)@.regs[register.as_index()]),
                ),
            ),
    {
        proof {
            use_type_invariant(&*self);
        }
        self.registers.update_flags(register);
    }

    /// One keyboard poll: read a byte from standard input and let the
    /// two keyboard words report it.
    fn receive_keyboard_input(&mut self) -> (r: Result<(), VmError>)
        ensures
            final(self)@.regs == old(self)@.regs,
            final(self)@.halted == old(self)@.halted,
            r is Ok ==> exists|byte: u8| final(self)@.mem == poll_mem(old(self)@.mem, byte),
            r is Err ==> final(self)@ == old(self)@ && r == Err::<(), VmError>(VmError::InputFailed),
    {
        match console::read_byte_from_stdin() {
            Some(byte) => {
                if byte != 0 {
                    self.memory_write(KEYBOARD_STATUS_ADDRESS, 0x8000);
                    self.memory_write(KEYBOARD_DATA_ADDRESS, byte as u16);
                } else {
                    self.memory_write(KEYBOARD_STATUS_ADDRESS, 0);
                }
                proof {
                    assert(self@.mem =~= poll_mem(old(self)@.mem, byte));
                }
                Ok(())
            },
            None => Err(VmError::InputFailed),
        }
    }

    /// The word at an address.  Reading the keyboard status word first
    /// polls the keyboard, which is the one way this can fail.
    pub fn memory_read(&mut self, memory_address: u16) -> (r: Result<u16, VmError>)
        ensures
            final(self)@.regs == old(self)@.regs,
            final(self)@.halted == old(self)@.halted,
            memory_address != KEYBOARD_STATUS_ADDRESS ==> r is Ok,
            (match r {
                Ok(value) => read_step(old(self)@.mem, memory_address, final(self)@.mem, value),
                Err(e) => final(self)@ == old(self)@ && e == VmError::InputFailed
                    && memory_address == KEYBOARD_STATUS_ADDRESS,
            }),
    {
        proof {
            use_type_invariant(&*self);
        }
        if memory_address == KEYBOARD_STATUS_ADDRESS {
            match self.receive_keyboard_input() {
                Ok(()) => {},
                Err(e) => {
                    return Err(e);
                },
            }
        }
        proof {
            use_type_invariant(&*self);
        }
        Ok(self.memory[memory_address as usize])
    }

    /// The low `amount_of_bits` bits of a word, spread over the full
    /// word as a two's-complement value.
    pub fn sign_extend(value_to_extend: u16, amount_of_bits: u16) -> (r: u16)
        requires
            1 <= amount_of_bits <= 16,
        ensures
            r == sext(value_to_extend, amount_of_bits),
    {
        if amount_of_bits < 16 && ((value_to_extend >> (amount_of_bits - 1)) & 1) == 1 {
            value_to_extend | (#[verifier::truncate] ((0xFFFFu32 << (amount_of_bits as u32)) as u16))
        } else {
            value_to_extend
        }
    }

    /// Execute one instruction word against the current state: select
    /// the executor by the high four bits and hand it the word's
    /// operand fields.
    pub fn decode_instruction(&mut self, instruction: u16) -> (r: Result<(), VmError>)
        ensures
            decode_rel(old(self)@, instruction, final(self)@, r),
    {
        proof {
            lemma_instruction_fields(instruction);
        }
        let instruction_opcode = instruction >> 12;
        match Instruction::from_opcode(instruction_opcode) {
            Instruction::BR => {
                let program_counter_offset = Self::sign_extend(instruction & 0b111111111, 9);
                let conditions_flag = (instruction >> 9) & 0b111;
                instructions::branch(self, program_counter_offset, conditions_flag);
                Ok(())
            },
            Instruction::ADD => {
                let destination_register = Register::from_index((instruction >> 9) & 0b111);
                let source_one_register = Register::from_index((instruction >> 6) & 0b111);
                let inmediate_return_flag = (instruction >> 5) & 0b1;
                if inmediate_return_flag == 1 {
                    let inmediate_value = Self::sign_extend(instruction & 0b11111, 5);
                    instructions::add_inmediate(
                        self,
                        destination_register,
                        source_one_register,
                        inmediate_value,
                    );
                } else {
                    let source_two_register = Register::from_index(instruction & 0b111);
                    instructions::add(
                        self,
                        destination_register,
                        source_one_register,
                        source_two_register,
                    );
                }
                Ok(())
            },
            Instruction::LD => {
                let destination_register = Register::from_index((instruction >> 9) & 0b111);
                let program_counter_offset = Self::sign_extend(instruction & 0b111111111, 9);
                instructions::load(self, destination_register, program_counter_offset)
            },
            Instruction::ST => {
                let source_register = Register::from_index((instruction >> 9) & 0b111);
                let program_counter_offset = Self::sign_extend(instruction & 0b111111111, 9);
                instructions::store(self, source_register, program_counter_offset);
                Ok(())
            },
            Instruction::JSR => {
                let offset_flag = (instruction >> 11) & 0b1;
                if offset_flag == 1 {
                    let program_counter_offset = Self::sign_extend(instruction & 0b11111111111, 11);
                    instructions::jump_to_subroutine_with_offset(self, program_counter_offset);
                } else {
                    let base_register = Register::from_index((instruction >> 6) & 0b111);
                    instructions::jump_to_subroutine(self, base_register);
                }
                Ok(())
            },
            Instruction::AND => {
                let destination_register = Register::from_index((instruction >> 9) & 0b111);
                let source_one_register = Register::from_index((instruction >> 6) & 0b111);
                let inmediate_return_flag = (instruction >> 5) & 0b1;
                if inmediate_return_flag == 1 {
                    let inmediate_value = Self::sign_extend(instruction & 0b11111, 5);
                    instructions::and_inmediate(
                        self,
                        destination_register,
                        source_one_register,
                        inmediate_value,
                    );
                } else {
                    let source_two_register = Register::from_index(instruction & 0b111);
                    instructions::and(
                        self,
                        destination_register,
                        source_one_register,
                        source_two_register,
                    );
                }
                Ok(())
            },
            Instruction::LDR => {
                let destination_register = Register::from_index((instruction >> 9) & 0b111);
                let base_register = Register::from_index((instruction >> 6) & 0b111);
                let offset = Self::sign_extend(instruction & 0b111111, 6);
                instructions::load_base_offset(self, destination_register, base_register, offset)
            },
            Instruction::STR => {
                let source_register = Register::from_index((instruction >> 9) & 0b111);
                let base_register = Register::from_index((instruction >> 6) & 0b111);
                let offset = Self::sign_extend(instruction & 0b111111, 6);
                instructions::store_base_offset(self, source_register, base_register, offset);
                Ok(())
            },
            Instruction::RTI => Err(VmError::UnsupportedOpcode),
            Instruction::NOT => {
                let destination_register = Register::from_index((instruction >> 9) & 0b111);
                let source_register = Register::from_index((instruction >> 6) & 0b111);
                instructions::not(self, destination_register, source_register);
                Ok(())
            },
            Instruction::LDI => {
                let destination_register = Register::from_index((instruction >> 9) & 0b111);
                let program_counter_offset = Self::sign_extend(instruction & 0b111111111, 9);
                instructions::load_indirect(self, destination_register, program_counter_offset)
            },
            Instruction::STI => {
                let source_register = Register::from_index((instruction >> 9) & 0b111);
                let program_counter_offset = Self::sign_extend(instruction & 0b111111111, 9);
                instructions::store_indirect(self, source_register, program_counter_offset)
            },
            Instruction::JMP => {
                let base_register = Register::from_index((instruction >> 6) & 0b111);
                instructions::jump(self, base_register);
                Ok(())
            },
            Instruction::RES => Err(VmError::UnsupportedOpcode),
            Instruction::LEA => {
                let destination_register = Register::from_index((instruction >> 9) & 0b111);
                let program_counter_offset = Self::sign_extend(instruction & 0b111111111, 9);
                instructions::load_effective_address(
                    self,
                    destination_register,
                    program_counter_offset,
                );
                Ok(())
            },
            Instruction::TRAP => {
                match Trap::from_vector(instruction & 0b11111111) {
                    Some(trap) => instructions::trap_instruction(self, trap),
                    None => Err(VmError::InvalidTrapVector),
                }
            },
        }
    }

    /// One fetch-decode-execute step: fetch the word at the program
    /// counter, advance the counter by one, and execute the word.  A
    /// halted machine stays as it is.
    pub fn next_instruction(&mut self) -> (r: Result<(), VmError>)
        ensures
            step_rel(old(self)@, final(self)@, r),
    {
        proof {
            use_type_invariant(&*self);
        }
        if self.is_halted() {
            return Ok(());
        }
        let program_counter = self.read_register(Register::ProgramCounter);
        match self.memory_read(program_counter) {
            Ok(instruction) => {
                let ghost fetched = self@;
                let new_register_value = program_counter.wrapping_add(1);
                self.update_register(Register::ProgramCounter, new_register_value);
                let ghost advanced = self@;
                let r = self.decode_instruction(instruction);
                proof {
                    assert(read_step(old(self)@.mem, pc_of(old(self)@), fetched.mem, instruction));
                    assert(advanced == (MachineState {
                        regs: old(self)@.regs.update(
                            PROGRAM_COUNTER_INDEX as int,
                            wrap_add(pc_of(old(self)@), 1),
                        ),
                        mem: fetched.mem,
                        halted: old(self)@.halted,
                    }));
                }
                r
            },
            Err(e) => Err(e),
        }
    }

    /// Run `steps` fetch-decode-execute steps, stopping at the first
    /// fatal error.
    pub fn next_instructions(&mut self, steps: u16) -> (r: Result<(), VmError>)
        ensures
            r is Ok ==> steps_rel(steps as nat, old(self)@, final(self)@),
            r is Err ==> exists|completed: nat, mid: MachineState|
                completed < steps && #[trigger] steps_rel(completed, old(self)@, mid)
                    && step_rel(mid, final(self)@, r),
    {
        let ghost start = self@;
        let mut index: u16 = 0;
        while index < steps
            invariant
                start == old(self)@,
                index <= steps,
                steps_rel(index as nat, start, self@),
            decreases steps - index,
        {
            let ghost before = self@;
            match self.next_instruction() {
                Ok(()) => {
                    proof {
                        lemma_steps_rel_snoc(index as nat, start, before, self@);
                    }
                },
                Err(e) => {
                    proof {
                        assert(steps_rel(index as nat, start, before) && step_rel(
                            before,
                            self@,
                            Err::<(), VmError>(e),
                        ));
                    }
                    return Err(e);
                },
            }
            index = index + 1;
        }
        Ok(())
    }

    /// The dump of the register file: each register as "0b" and
    /// sixteen binary digits, each followed by "::", in file order.
    pub fn state_of_registers(&self) -> (r: String)
        ensures
            r@ == register_dump_chars(self@.regs),
    {
        self.registers.state_of_registers()
    }

    /// Store a word at an address.  Writes have no device behaviour,
    /// the keyboard words included.
    pub fn memory_write(&mut self, memory_address: u16, value_to_write: u16)
        ensures
            final(self)@ == with_mem(
                old(self)@,
                old(self)@.mem.update(memory_address as int, value_to_write),
            ),
    {
        proof {
            use_type_invariant(&*self);
        }
        self.memory[memory_address as usize] = value_to_write;
    }
}

} // verus!
