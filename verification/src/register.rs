//! The register file: eight general registers, the program counter
//! and the condition flag, each one machine word wide.

use vstd::prelude::*;

use crate::semantics::{
    initial_regs, flag_for, AMOUNT_OF_REGISTERS, CONDITION_FLAG_INDEX, PROGRAM_COUNTER_INDEX,
};
use crate::text::{dump_prefix_chars, push_binary, register_dump_chars};

verus! {

/// The three condition codes. Exactly one describes any word: zero,
/// negative (top bit set), or positive.
#[derive(Clone, Copy, Debug, PartialEq, Eq, Structural)]
pub enum Flag {
    /// The last flag-updating write stored a positive word.
    POSITIVE,
    /// The last flag-updating write stored zero.
    ZERO,
    /// The last flag-updating write stored a word with the top bit set.
    NEGATIVE,
}

impl Flag {
    /// The one-hot word this code occupies in the condition register.
    pub open spec fn spec_word(self) -> u16 {
        match self {
            Flag::POSITIVE => 1,
            Flag::ZERO => 2,
            Flag::NEGATIVE => 4,
        }
    }

    /// The one-hot word this code occupies in the condition register.
    pub fn word(self) -> (w: u16)
        ensures
            w == self.spec_word(),
        no_unwind
    {
        match self {
            Flag::POSITIVE => 1,
            Flag::ZERO => 2,
            Flag::NEGATIVE => 4,
        }
    }
}

/// A name for one of the ten registers.
#[derive(Clone, Copy, Debug, PartialEq, Eq, Structural)]
pub enum Register {
    R0,
    R1,
    R2,
    R3,
    R4,
    R5,
    R6,
    R7,
    ProgramCounter,
    ConditionFlag,
}

impl Register {
    /// The register's position in the register file.
    pub open spec fn as_index(self) -> int {
        match self {
            Register::R0 => 0,
            Register::R1 => 1,
            Register::R2 => 2,
            Register::R3 => 3,
            Register::R4 => 4,
            Register::R5 => 5,
            Register::R6 => 6,
            Register::R7 => 7,
            Register::ProgramCounter => 8,
            Register::ConditionFlag => 9,
        }
    }

    /// The register's position in the register file.
    pub fn index(self) -> (i: usize)
        ensures
            i == self.as_index(),
        no_unwind
    {
        match self {
            Register::R0 => 0,
            Register::R1 => 1,
            Register::R2 => 2,
            Register::R3 => 3,
            Register::R4 => 4,
            Register::R5 => 5,
            Register::R6 => 6,
            Register::R7 => 7,
            Register::ProgramCounter => 8,
            Register::ConditionFlag => 9,
        }
    }

    /// The register at a given position of the register file.
    pub fn from_index(value: u16) -> (r: Register)
        requires
            value < AMOUNT_OF_REGISTERS,
        ensures
            r.as_index() == value as int,
    {
        match value {
            0 => Register::R0,
            1 => Register::R1,
            2 => Register::R2,
            3 => Register::R3,
            4 => Register::R4,
            5 => Register::R5,
            6 => Register::R6,
            7 => Register::R7,
            8 => Register::ProgramCounter,
            _ => Register::ConditionFlag,
        }
    }
}

/// The register file itself, viewed as the sequence of its ten words.
pub struct Registers {
    registers: Vec<u16>,
}

impl View for Registers {
    type V = Seq<u16>;

    closed spec fn view(&self) -> Seq<u16> {
        self.registers@
    }
}

impl Registers {
    #[verifier::type_invariant]
    spec fn type_inv(&self) -> bool {
        self.registers@.len() == AMOUNT_OF_REGISTERS
    }

    /// A register file at power-on: all zero but the program counter.
    pub fn new(program_counter_start: u16) -> (r: Registers)
        ensures
            r@ == initial_regs(program_counter_start),
    {
        let mut registers: Vec<u16> = vec![0u16; AMOUNT_OF_REGISTERS];
        registers[PROGRAM_COUNTER_INDEX] = program_counter_start;
        let r = Registers { registers };
        proof {
            assert(r@ =~= initial_regs(program_counter_start));
        }
        r
    }

    /// The word a register holds.
    pub fn read_register(&self, source_register: Register) -> (value: u16)
        ensures
            value == self@[source_register.as_index()],
        no_unwind
    {
        proof {
            use_type_invariant(self);
        }
        self.registers[source_register.index()]
    }

    /// Store a word in a register.
    pub fn update_register(&mut self, destination_register: Register, new_register_value: u16)
        ensures
            final(self)@ == old(self)@.update(destination_register.as_index(), new_register_value),
        no_unwind
    {
        proof {
            use_type_invariant(&*self);
        }
        let i = destination_register.index();
        self.registers[i] = new_register_value;
    }

    /// The dump of the register file: each register as "0b" and
    /// sixteen binary digits, each followed by "::", in file order.
    pub fn state_of_registers(&self) -> (r: String)
        ensures
            r@ == register_dump_chars(self@),
    {
        proof {
            use_type_invariant(self);
        }
        let mut result = String::new();
        let mut index: usize = 0;
        while index < AMOUNT_OF_REGISTERS
            invariant
                index <= AMOUNT_OF_REGISTERS,
                self@.len() == AMOUNT_OF_REGISTERS,
                result@ == dump_prefix_chars(self@, index as int),
            decreases AMOUNT_OF_REGISTERS - index,
        {
            proof {
                reveal_strlit("0b");
                reveal_strlit("::");
            }
            result.append("0b");
            push_binary(&mut result, self.registers[index]);
            result.append("::");
            proof {
                assert(result@ =~= dump_prefix_chars(self@, index as int + 1));
            }
            index = index + 1;
        }
        result
    }

    /// Set the condition flag to describe the word `register` holds.
    pub fn update_flags(&mut self, register: Register)
        ensures
            final(self)@ == old(self)@.update(
                CONDITION_FLAG_INDEX as int,
                flag_for(old(self)@[register.as_index()]),
            ),
        no_unwind
    {
        let value = self.read_register(register);
        if value == 0 {
            self.update_register(Register::ConditionFlag, Flag::ZERO.word())
        } else if (value >> 15) != 0 {
            proof {
                assert(value >= 0x8000) by (bit_vector)
                    requires
                        value >> 15 != 0,
                ;
            }
            self.update_register(Register::ConditionFlag, Flag::NEGATIVE.word())
        } else {
            proof {
                assert(value < 0x8000) by (bit_vector)
                    requires
                        value >> 15 == 0,
                ;
            }
            self.update_register(Register::ConditionFlag, Flag::POSITIVE.word())
        }
    }
}

} // verus!
