//! One executor per instruction, each stating exactly what it does to
//! the machine state.

use vstd::prelude::*;

use crate::error::VmError;
use crate::lc3_virtual_machine::LC3VirtualMachine;
use crate::register::Register;
use crate::semantics::{
    branch_result, flagged_write, jump_result, jump_subroutine_offset_result,
    jump_subroutine_result, load_from_rel, load_indirect_rel, pc_of, read_step, store_indirect_rel,
    store_result, trap_rel, with_mem, wrap_add, written_state, MachineState,
};
use crate::trap::Trap;

verus! {

/// A name for each of the sixteen opcodes, in opcode order.
#[derive(Clone, Copy, Debug, PartialEq, Eq, Structural)]
pub enum Instruction {
    BR,
    ADD,
    LD,
    ST,
    JSR,
    AND,
    LDR,
    STR,
    RTI,
    NOT,
    LDI,
    STI,
    JMP,
    RES,
    LEA,
    TRAP,
}

impl Instruction {
    /// The instruction an opcode selects.
    pub open spec fn spec_of_opcode(value: u16) -> Instruction {
        if value == 0 {
            Instruction::BR
        } else if value == 1 {
            Instruction::ADD
        } else if value == 2 {
            Instruction::LD
        } else if value == 3 {
            Instruction::ST
        } else if value == 4 {
            Instruction::JSR
        } else if value == 5 {
            Instruction::AND
        } else if value == 6 {
            Instruction::LDR
        } else if value == 7 {
            Instruction::STR
        } else if value == 8 {
            Instruction::RTI
        } else if value == 9 {
            Instruction::NOT
        } else if value == 10 {
            Instruction::LDI
        } else if value == 11 {
            Instruction::STI
        } else if value == 12 {
            Instruction::JMP
        } else if value == 13 {
            Instruction::RES
        } else if value == 14 {
            Instruction::LEA
        } else {
            Instruction::TRAP
        }
    }

    /// The instruction an opcode selects.
    pub fn from_opcode(value: u16) -> (r: Instruction)
        requires
            value < 16,
        ensures
            r == Instruction::spec_of_opcode(value),
    {
        match value {
            0 => Instruction::BR,
            1 => Instruction::ADD,
            2 => Instruction::LD,
            3 => Instruction::ST,
            4 => Instruction::JSR,
            5 => Instruction::AND,
            6 => Instruction::LDR,
            7 => Instruction::STR,
            8 => Instruction::RTI,
            9 => Instruction::NOT,
            10 => Instruction::LDI,
            11 => Instruction::STI,
            12 => Instruction::JMP,
            13 => Instruction::RES,
            14 => Instruction::LEA,
            _ => Instruction::TRAP,
        }
    }
}

/// ADD, register form: the sum of the two source registers, modulo
/// 2^16, goes to the destination register; the flags describe it.
pub fn add(
    virtual_machine: &mut LC3VirtualMachine,
    destination_register: Register,
    source_one_register: Register,
    source_two_register: Register,
)
    ensures
        final(virtual_machine)@ == written_state(
            old(virtual_machine)@,
            destination_register.as_index(),
            wrap_add(
                old(virtual_machine)@.regs[source_one_register.as_index()],
                old(virtual_machine)@.regs[source_two_register.as_index()],
            ),
        ),
{
    proof {
        use_type_invariant(&*virtual_machine);
    }
    let new_register_value = virtual_machine.read_register(source_one_register).wrapping_add(
        virtual_machine.read_register(source_two_register),
    );
    virtual_machine.update_register(destination_register, new_register_value);
    virtual_machine.update_flags(destination_register);
}

/// ADD, immediate form: the source register plus the sign-extended
/// immediate, modulo 2^16, goes to the destination register; the
/// flags describe it.
pub fn add_inmediate(
    virtual_machine: &mut LC3VirtualMachine,
    destination_register: Register,
    source_one_register: Register,
    inmediate_value: u16,
)
    ensures
        final(virtual_machine)@ == written_state(
            old(virtual_machine)@,
            destination_register.as_index(),
            wrap_add(old(virtual_machine)@.regs[source_one_register.as_index()], inmediate_value),
        ),
{
    proof {
        use_type_invariant(&*virtual_machine);
    }
    let new_register_value = virtual_machine.read_register(source_one_register).wrapping_add(
        inmediate_value,
    );
    virtual_machine.update_register(destination_register, new_register_value);
    virtual_machine.update_flags(destination_register);
}

/// AND, register form: the bitwise AND of the two source registers
/// goes to the destination register; the flags describe it.
pub fn and(
    virtual_machine: &mut LC3VirtualMachine,
    destination_register: Register,
    source_one_register: Register,
    source_two_register: Register,
)
    ensures
        final(virtual_machine)@ == written_state(
            old(virtual_machine)@,
            destination_register.as_index(),
            old(virtual_machine)@.regs[source_one_register.as_index()] & old(
                virtual_machine,
            )@.regs[source_two_register.as_index()],
        ),
{
    proof {
        use_type_invariant(&*virtual_machine);
    }
    let new_register_value = virtual_machine.read_register(source_one_register)
        & virtual_machine.read_register(source_two_register);
    virtual_machine.update_register(destination_register, new_register_value);
    virtual_machine.update_flags(destination_register);
}

/// AND, immediate form: the source register AND the sign-extended
/// immediate goes to the destination register; the flags describe it.
pub fn and_inmediate(
    virtual_machine: &mut LC3VirtualMachine,
    destination_register: Register,
    source_one_register: Register,
    inmediate_value: u16,
)
    ensures
        final(virtual_machine)@ == written_state(
            old(virtual_machine)@,
            destination_register.as_index(),
            old(virtual_machine)@.regs[source_one_register.as_index()] & inmediate_value,
        ),
{
    proof {
        use_type_invariant(&*virtual_machine);
    }
    let new_register_value = virtual_machine.read_register(source_one_register) & inmediate_value;
    virtual_machine.update_register(destination_register, new_register_value);
    virtual_machine.update_flags(destination_register);
}

/// NOT: the bitwise complement of the source register goes to the
/// destination register; the flags describe it.
pub fn not(
    virtual_machine: &mut LC3VirtualMachine,
    destination_register: Register,
    source_register: Register,
)
    ensures
        final(virtual_machine)@ == written_state(
            old(virtual_machine)@,
            destination_register.as_index(),
            !old(virtual_machine)@.regs[source_register.as_index()],
        ),
{
    proof {
        use_type_invariant(&*virtual_machine);
    }
    let new_register_value = !virtual_machine.read_register(source_register);
    virtual_machine.update_register(destination_register, new_register_value);
    virtual_machine.update_flags(destination_register);
}

/// BR: when the mask meets the condition flag, the offset is added to
/// the program counter; otherwise nothing happens.  No flag update.
pub fn branch(
    virtual_machine: &mut LC3VirtualMachine,
    program_counter_offset: u16,
    conditions_flag: u16,
)
    ensures
        final(virtual_machine)@ == branch_result(
            old(virtual_machine)@,
            conditions_flag,
            program_counter_offset,
        ),
{
    proof {
        use_type_invariant(&*virtual_machine);
    }
    if (conditions_flag & virtual_machine.read_register(Register::ConditionFlag)) != 0 {
        let new_register_value = virtual_machine.read_register(
            Register::ProgramCounter,
        ).wrapping_add(program_counter_offset);
        virtual_machine.update_register(Register::ProgramCounter, new_register_value);
    }
}

/// JMP: the program counter jumps to the base register's word.  RET
/// is this instruction with R7 as its base.  No flag update.
pub fn jump(virtual_machine: &mut LC3VirtualMachine, base_register: Register)
    ensures
        final(virtual_machine)@ == jump_result(old(virtual_machine)@, base_register.as_index()),
{
    proof {
        use_type_invariant(&*virtual_machine);
    }
    let new_register_value = virtual_machine.read_register(base_register);
    virtual_machine.update_register(Register::ProgramCounter, new_register_value);
}

/// JSRR: R7 keeps the return address, then the program counter jumps
/// to the base register's word.  No flag update.
pub fn jump_to_subroutine(virtual_machine: &mut LC3VirtualMachine, base_register: Register)
    ensures
        final(virtual_machine)@ == jump_subroutine_result(
            old(virtual_machine)@,
            base_register.as_index(),
        ),
{
    proof {
        use_type_invariant(&*virtual_machine);
    }
    let return_address = virtual_machine.read_register(Register::ProgramCounter);
    virtual_machine.update_register(Register::R7, return_address);
    let new_register_value = virtual_machine.read_register(base_register);
    virtual_machine.update_register(Register::ProgramCounter, new_register_value);
}

/// JSR: R7 keeps the return address, then the offset is added to the
/// program counter.  No flag update.
pub fn jump_to_subroutine_with_offset(
    virtual_machine: &mut LC3VirtualMachine,
    program_counter_offset: u16,
)
    ensures
        final(virtual_machine)@ == jump_subroutine_offset_result(
            old(virtual_machine)@,
            program_counter_offset,
        ),
{
    proof {
        use_type_invariant(&*virtual_machine);
    }
    let return_address = virtual_machine.read_register(Register::ProgramCounter);
    virtual_machine.update_register(Register::R7, return_address);
    let new_register_value = virtual_machine.read_register(Register::ProgramCounter).wrapping_add(
        program_counter_offset,
    );
    virtual_machine.update_register(Register::ProgramCounter, new_register_value);
}

/// LD: the word at the program counter plus the offset goes to the
/// destination register; the flags describe it.
pub fn load(
    virtual_machine: &mut LC3VirtualMachine,
    destination_register: Register,
    program_counter_offset: u16,
) -> (r: Result<(), VmError>)
    ensures
        load_from_rel(
            old(virtual_machine)@,
            destination_register.as_index(),
            wrap_add(pc_of(old(virtual_machine)@), program_counter_offset),
            final(virtual_machine)@,
            r,
        ),
{
    let address = virtual_machine.read_register(Register::ProgramCounter).wrapping_add(
        program_counter_offset,
    );
    load_from_address(virtual_machine, destination_register, address)
}

/// LDR: the word at the base register plus the offset goes to the
/// destination register; the flags describe it.
pub fn load_base_offset(
    virtual_machine: &mut LC3VirtualMachine,
    destination_register: Register,
    base_register: Register,
    offset: u16,
) -> (r: Result<(), VmError>)
    ensures
        load_from_rel(
            old(virtual_machine)@,
            destination_register.as_index(),
            wrap_add(old(virtual_machine)@.regs[base_register.as_index()], offset),
            final(virtual_machine)@,
            r,
        ),
{
    let address = virtual_machine.read_register(base_register).wrapping_add(offset);
    load_from_address(virtual_machine, destination_register, address)
}

/// The shared tail of the load instructions: one memory read whose
/// value goes to the destination register with a flag update.
fn load_from_address(
    virtual_machine: &mut LC3VirtualMachine,
    destination_register: Register,
    address: u16,
) -> (r: Result<(), VmError>)
    ensures
        load_from_rel(
            old(virtual_machine)@,
            destination_register.as_index(),
            address,
            final(virtual_machine)@,
            r,
        ),
{
    proof {
        use_type_invariant(&*virtual_machine);
    }
    match virtual_machine.memory_read(address) {
        Ok(new_register_value) => {
            let ghost mid = virtual_machine@;
            virtual_machine.update_register(destination_register, new_register_value);
            virtual_machine.update_flags(destination_register);
            proof {
                assert(read_step(old(virtual_machine)@.mem, address, mid.mem, new_register_value));
                assert(virtual_machine@ == (MachineState {
                    regs: flagged_write(
                        old(virtual_machine)@.regs,
                        destination_register.as_index(),
                        new_register_value,
                    ),
                    mem: mid.mem,
                    halted: old(virtual_machine)@.halted,
                }));
            }
            Ok(())
        },
        Err(e) => Err(e),
    }
}

/// LDI: the word at the program counter plus the offset names an
/// address, whose word goes to the destination register; the flags
/// describe it.
pub fn load_indirect(
    virtual_machine: &mut LC3VirtualMachine,
    destination_register: Register,
    program_counter_offset: u16,
) -> (r: Result<(), VmError>)
    ensures
        load_indirect_rel(
            old(virtual_machine)@,
            destination_register.as_index(),
            wrap_add(pc_of(old(virtual_machine)@), program_counter_offset),
            final(virtual_machine)@,
            r,
        ),
{
    proof {
        use_type_invariant(&*virtual_machine);
    }
    let address = virtual_machine.read_register(Register::ProgramCounter).wrapping_add(
        program_counter_offset,
    );
    match virtual_machine.memory_read(address) {
        Ok(memory_address) => {
            let ghost mid = virtual_machine@;
            match virtual_machine.memory_read(memory_address) {
                Ok(new_register_value) => {
                    let ghost mid2 = virtual_machine@;
                    virtual_machine.update_register(destination_register, new_register_value);
                    virtual_machine.update_flags(destination_register);
                    proof {
                        assert(read_step(old(virtual_machine)@.mem, address, mid.mem, memory_address));
                        assert(read_step(mid.mem, memory_address, mid2.mem, new_register_value));
                        assert(virtual_machine@ == (MachineState {
                            regs: flagged_write(
                                old(virtual_machine)@.regs,
                                destination_register.as_index(),
                                new_register_value,
                            ),
                            mem: mid2.mem,
                            halted: old(virtual_machine)@.halted,
                        }));
                    }
                    Ok(())
                },
                Err(e) => {
                    proof {
                        assert(read_step(old(virtual_machine)@.mem, address, mid.mem, memory_address));
                        assert(virtual_machine@ == with_mem(old(virtual_machine)@, mid.mem));
                    }
                    Err(e)
                },
            }
        },
        Err(e) => Err(e),
    }
}

/// LEA: the program counter plus the offset itself goes to the
/// destination register; the flags describe it.
pub fn load_effective_address(
    virtual_machine: &mut LC3VirtualMachine,
    destination_register: Register,
    program_counter_offset: u16,
)
    ensures
        final(virtual_machine)@ == written_state(
            old(virtual_machine)@,
            destination_register.as_index(),
            wrap_add(pc_of(old(virtual_machine)@), program_counter_offset),
        ),
{
    proof {
        use_type_invariant(&*virtual_machine);
    }
    let new_register_value = virtual_machine.read_register(Register::ProgramCounter).wrapping_add(
        program_counter_offset,
    );
    virtual_machine.update_register(destination_register, new_register_value);
    virtual_machine.update_flags(destination_register);
}

/// ST: the source register's word goes to memory at the program
/// counter plus the offset.
pub fn store(
    virtual_machine: &mut LC3VirtualMachine,
    source_register: Register,
    program_counter_offset: u16,
)
    ensures
        final(virtual_machine)@ == store_result(
            old(virtual_machine)@,
            source_register.as_index(),
            wrap_add(pc_of(old(virtual_machine)@), program_counter_offset),
        ),
{
    proof {
        use_type_invariant(&*virtual_machine);
    }
    let value_to_write = virtual_machine.read_register(source_register);
    let memory_address = virtual_machine.read_register(Register::ProgramCounter).wrapping_add(
        program_counter_offset,
    );
    virtual_machine.memory_write(memory_address, value_to_write);
}

/// STR: the source register's word goes to memory at the base
/// register plus the offset.
pub fn store_base_offset(
    virtual_machine: &mut LC3VirtualMachine,
    source_register: Register,
    base_register: Register,
    offset: u16,
)
    ensures
        final(virtual_machine)@ == store_result(
            old(virtual_machine)@,
            source_register.as_index(),
            wrap_add(old(virtual_machine)@.regs[base_register.as_index()], offset),
        ),
{
    proof {
        use_type_invariant(&*virtual_machine);
    }
    let value_to_write = virtual_machine.read_register(source_register);
    let base_register_address = virtual_machine.read_register(base_register);
    virtual_machine.memory_write(base_register_address.wrapping_add(offset), value_to_write)
}

/// STI: the word at the program counter plus the offset names the
/// address where the source register's word is stored.
pub fn store_indirect(
    virtual_machine: &mut LC3VirtualMachine,
    source_register: Register,
    program_counter_offset: u16,
) -> (r: Result<(), VmError>)
    ensures
        store_indirect_rel(
            old(virtual_machine)@,
            source_register.as_index(),
            wrap_add(pc_of(old(virtual_machine)@), program_counter_offset),
            final(virtual_machine)@,
            r,
        ),
{
    proof {
        use_type_invariant(&*virtual_machine);
    }
    let value_to_write = virtual_machine.read_register(source_register);
    let address = virtual_machine.read_register(Register::ProgramCounter).wrapping_add(
        program_counter_offset,
    );
    match virtual_machine.memory_read(address) {
        Ok(destination_address) => {
            let ghost mid = virtual_machine@;
            virtual_machine.memory_write(destination_address, value_to_write);
            proof {
                assert(read_step(old(virtual_machine)@.mem, address, mid.mem, destination_address));
                assert(virtual_machine@ == with_mem(
                    old(virtual_machine)@,
                    mid.mem.update(destination_address as int, value_to_write),
                ));
            }
            Ok(())
        },
        Err(e) => Err(e),
    }
}

/// TRAP: R7 keeps the return address, then the trap's service routine
/// runs.
pub fn trap_instruction(virtual_machine: &mut LC3VirtualMachine, trap: Trap) -> (r: Result<
    (),
    VmError,
>)
    ensures
        trap_rel(old(virtual_machine)@, trap.spec_vector(), final(virtual_machine)@, r),
{
    proof {
        use_type_invariant(&*virtual_machine);
    }
    let return_address = virtual_machine.read_register(Register::ProgramCounter);
    virtual_machine.update_register(Register::R7, return_address);
    trap.execute_trap(virtual_machine)
}

} // verus!
