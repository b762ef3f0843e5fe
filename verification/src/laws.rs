//! Machine-wide laws: facts that hold of every instruction and every
//! state, proved once against the step relations.

use vstd::prelude::*;

use crate::debug::debug_command_rel;
use crate::error::VmError;
use crate::loader::{be_word, image_words, lemma_written_words_at, loaded_state};
use crate::semantics::{
    branch_result, cond_of, decode_rel, flag_for, flagged_write, initial_state, opcode_of, pc_of,
    read_step, sext, signed_field, state_wf, step_rel, to_signed, with_regs, wrap_add,
    MachineState, KEYBOARD_STATUS_ADDRESS, PROGRAM_COUNTER_INDEX,
};

verus! {

/// Wrapping arithmetic: adding machine words is addition modulo
/// 2^16, the arithmetic every address computation and every ADD
/// uses.
pub proof fn lemma_wrapping_arithmetic(a: u16, b: u16)
    ensures
        wrap_add(a, b) == (a + b) % 0x10000,
{
}

/// A fetch step in the clear: when the machine is not halted and the
/// program counter is away from the keyboard status word, the word
/// executed is exactly the word under the program counter, and it
/// runs against the counter already advanced by one, wrapping past
/// the top address.
pub proof fn lemma_step_fetches_in_order(
    s0: MachineState,
    s1: MachineState,
    r: Result<(), VmError>,
)
    requires
        state_wf(s0),
        !s0.halted,
        pc_of(s0) != KEYBOARD_STATUS_ADDRESS,
        step_rel(s0, s1, r),
    ensures
        decode_rel(
            with_regs(
                s0,
                s0.regs.update(PROGRAM_COUNTER_INDEX as int, wrap_add(pc_of(s0), 1)),
            ),
            s0.mem[pc_of(s0) as int],
            s1,
            r,
        ),
{
    let (m1, word) = choose|m1: Seq<u16>, word: u16|
        read_step(s0.mem, pc_of(s0), m1, word) && decode_rel(
            MachineState {
                regs: s0.regs.update(PROGRAM_COUNTER_INDEX as int, wrap_add(pc_of(s0), 1)),
                mem: m1,
                halted: s0.halted,
            },
            word,
            s1,
            r,
        );
    assert(m1 == s0.mem && word == s0.mem[pc_of(s0) as int]);
    assert(with_regs(s0, s0.regs.update(PROGRAM_COUNTER_INDEX as int, wrap_add(pc_of(s0), 1)))
        =~= (MachineState {
        regs: s0.regs.update(PROGRAM_COUNTER_INDEX as int, wrap_add(pc_of(s0), 1)),
        mem: m1,
        halted: s0.halted,
    }));
}

/// The condition flag of a written word is always exactly one of
/// positive, zero and negative.
pub proof fn lemma_flag_one_hot(value: u16)
    ensures
        flag_for(value) == 1 || flag_for(value) == 2 || flag_for(value) == 4,
        flag_for(value) == 2 <==> value == 0,
        flag_for(value) == 4 <==> value >= 0x8000,
        flag_for(value) == 1 <==> 0 < value < 0x8000,
{
}

/// Whether an instruction word updates the condition flag.
pub open spec fn updates_flags(instruction: u16) -> bool {
    let op = opcode_of(instruction);
    op == 1 || op == 2 || op == 5 || op == 6 || op == 9 || op == 10 || op == 14
}

/// Flag exclusivity: after any flag-updating instruction the
/// condition flag holds exactly one of the three condition codes.
pub proof fn lemma_flag_exclusivity(
    s0: MachineState,
    instruction: u16,
    s1: MachineState,
)
    requires
        state_wf(s0),
        updates_flags(instruction),
        decode_rel(s0, instruction, s1, Ok::<(), VmError>(())),
    ensures
        cond_of(s1) == 1 || cond_of(s1) == 2 || cond_of(s1) == 4,
{
    crate::semantics::lemma_instruction_fields(instruction);
    let op = opcode_of(instruction);
    let dst = crate::semantics::dst_of(instruction);
    if op == 2 {
        let addr = wrap_add(pc_of(s0), crate::semantics::off9_of(instruction));
        let (m1, value) = choose|m1: Seq<u16>, value: u16|
            read_step(s0.mem, addr, m1, value) && s1 == (MachineState {
                regs: flagged_write(s0.regs, dst, value),
                mem: m1,
                halted: s0.halted,
            });
        assert(s1.regs == flagged_write(s0.regs, dst, value));
    } else if op == 6 {
        let addr = wrap_add(
            s0.regs[crate::semantics::src_of(instruction)],
            crate::semantics::off6_of(instruction),
        );
        let (m1, value) = choose|m1: Seq<u16>, value: u16|
            read_step(s0.mem, addr, m1, value) && s1 == (MachineState {
                regs: flagged_write(s0.regs, dst, value),
                mem: m1,
                halted: s0.halted,
            });
        assert(s1.regs == flagged_write(s0.regs, dst, value));
    } else if op == 10 {
        let (m1, indirect, m2, value) = choose|m1: Seq<u16>, indirect: u16, m2: Seq<u16>, value: u16|
            read_step(s0.mem, wrap_add(pc_of(s0), crate::semantics::off9_of(instruction)), m1, indirect)
                && read_step(m1, indirect, m2, value) && s1 == (MachineState {
                regs: flagged_write(s0.regs, dst, value),
                mem: m2,
                halted: s0.halted,
            });
        assert(s1.regs == flagged_write(s0.regs, dst, value));
    }
}

/// Sign-extend round trip: for a word whose high bits above the
/// field are zero, the sign-extended word read as a signed number is
/// the field itself read as a signed number.
pub proof fn lemma_sign_extend_round_trip(value: u16, bits: u16)
    requires
        1 <= bits <= 16,
        (value as u32) >> (bits as u32) == 0,
    ensures
        to_signed(sext(value, bits)) == signed_field(value, bits),
{
    if bits == 16 {
        assert(((value >> 15) & 1 == 1) == (value >= 0x8000)) by (bit_vector);
        assert((1u32 << 16) == 0x10000) by (bit_vector);
    } else if (value >> ((bits - 1) as u16)) & 1 == 1 {
        let extended = value | ((0xFFFFu32 << (bits as u32)) as u16);
        assert(extended >= 0x8000) by (bit_vector)
            requires
                1 <= bits < 16,
                extended == value | ((0xFFFFu32 << (bits as u32)) as u16),
        ;
        assert(extended as u32 == value as u32 + 0x10000 - (1u32 << (bits as u32))) by (bit_vector)
            requires
                1 <= bits < 16,
                (value as u32) >> (bits as u32) == 0,
                extended == value | ((0xFFFFu32 << (bits as u32)) as u16),
        ;
    } else {
        assert(value < 0x8000) by (bit_vector)
            requires
                1 <= bits < 16,
                (value as u32) >> (bits as u32) == 0,
        ;
    }
}

/// JSR linkage: both subroutine jumps leave R7 holding the program
/// counter as it stood when the jump executed, the address of the
/// word after the jump.
pub proof fn lemma_jsr_linkage(s0: MachineState, instruction: u16, s1: MachineState)
    requires
        state_wf(s0),
        opcode_of(instruction) == 4,
        decode_rel(s0, instruction, s1, Ok::<(), VmError>(())),
    ensures
        s1.regs[7] == pc_of(s0),
{
}

/// BR mask identity: a branch with an empty mask changes nothing,
/// whatever the condition flag holds; a branch with the full mask
/// always branches, as long as the flag holds one of the three
/// condition codes.
pub proof fn lemma_branch_mask(s0: MachineState, offset: u16)
    ensures
        branch_result(s0, 0, offset) == s0,
        (cond_of(s0) == 1 || cond_of(s0) == 2 || cond_of(s0) == 4) ==> branch_result(s0, 7, offset)
            == with_regs(
            s0,
            s0.regs.update(
                crate::semantics::PROGRAM_COUNTER_INDEX as int,
                wrap_add(pc_of(s0), offset),
            ),
        ),
{
    let c = cond_of(s0);
    assert(0u16 & c == 0) by (bit_vector);
    assert(c == 1 || c == 2 || c == 4 ==> 7u16 & c != 0) by (bit_vector);
}

/// Register dump idempotence: two dump commands in a row answer with
/// the same payload, and leave the machine exactly where it stood.
pub proof fn lemma_register_dump_idempotent(
    s0: MachineState,
    s1: MachineState,
    s2: MachineState,
    first: Seq<char>,
    second: Seq<char>,
)
    requires
        debug_command_rel(s0, seq!['r'], s1, Ok::<Seq<char>, VmError>(first)),
        debug_command_rel(s1, seq!['r'], s2, Ok::<Seq<char>, VmError>(second)),
    ensures
        first == second,
        s2 == s0,
{
    assert(seq!['r'] != seq!['n']) by {
        if seq!['r'] == seq!['n'] {
            assert(seq!['r'][0] == seq!['n'][0]);
        }
    }
}

/// Loader round trip: the k-th word written while loading an image
/// is the (k+1)-th big-endian word of the image, found k addresses
/// past the starting program counter.  An image of more words than
/// the memory holds wraps around and overwrites its own start, so
/// the law asks for one that fits.
pub proof fn lemma_loader_round_trip(bytes: Seq<u8>, k: u16)
    requires
        bytes.len() >= 2,
        (k as int) < image_words(bytes).len(),
        image_words(bytes).len() <= 0x10000,
    ensures
        loaded_state(bytes).mem[wrap_add(be_word(bytes[0], bytes[1]), k) as int] == be_word(
            bytes[2 + 2 * (k as int)],
            bytes[3 + 2 * (k as int)],
        ),
{
    let origin = be_word(bytes[0], bytes[1]);
    lemma_written_words_at(initial_state(origin).mem, origin, image_words(bytes), k);
}

} // verus!
