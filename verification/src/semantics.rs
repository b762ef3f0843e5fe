//! The mathematical model of the machine: its state as plain sequences
//! of words, and one relation per instruction saying how a step may
//! change that state.
//!
//! Reads of the keyboard status word poll standard input, so the word
//! read there is not a function of the machine state alone.  The
//! relations of the polling instructions therefore quantify over the
//! byte that arrived; every other instruction is pinned down exactly.

use vstd::prelude::*;

use crate::error::VmError;

verus! {

/// Address of the keyboard status word; reading it polls the keyboard.
pub const KEYBOARD_STATUS_ADDRESS: u16 = 0xFE00;
/// Address of the keyboard data word, filled by a successful poll.
pub const KEYBOARD_DATA_ADDRESS: u16 = 0xFE02;
/// Number of words in the machine's memory.
pub const MEMORY_SIZE: usize = 0x10000;
/// Number of registers: eight general ones, the program counter and
/// the condition flag.
pub const AMOUNT_OF_REGISTERS: usize = 10;

/// Position of the program counter in the register file.
pub const PROGRAM_COUNTER_INDEX: usize = 8;
/// Position of the condition flag in the register file.
pub const CONDITION_FLAG_INDEX: usize = 9;

/// The machine state: the ten registers, the memory words, and whether
/// a HALT trap has ended execution.
#[verifier::ext_equal]
pub struct MachineState {
    /// The register file, in the fixed order R0..R7, PC, COND.
    pub regs: Seq<u16>,
    /// One word for each of the 2^16 addresses.
    pub mem: Seq<u16>,
    /// True once the HALT trap has run.
    pub halted: bool,
}

/// A state with the right number of registers and memory words.
pub open spec fn state_wf(s: MachineState) -> bool {
    &&& s.regs.len() == AMOUNT_OF_REGISTERS
    &&& s.mem.len() == MEMORY_SIZE
}

/// The program counter of a state.
pub open spec fn pc_of(s: MachineState) -> u16 {
    s.regs[PROGRAM_COUNTER_INDEX as int]
}

/// The condition flag of a state.
pub open spec fn cond_of(s: MachineState) -> u16 {
    s.regs[CONDITION_FLAG_INDEX as int]
}

/// The same state with another register file.
pub open spec fn with_regs(s: MachineState, regs: Seq<u16>) -> MachineState {
    MachineState { regs, ..s }
}

/// The same state with another memory.
pub open spec fn with_mem(s: MachineState, mem: Seq<u16>) -> MachineState {
    MachineState { mem, ..s }
}

/// Addition of machine words: modulo 2^16, as the hardware wraps.
pub open spec fn wrap_add(a: u16, b: u16) -> u16 {
    if a + b > 0xFFFF {
        (a + b - 0x10000) as u16
    } else {
        (a + b) as u16
    }
}

/// The condition flag describing a just-written word: zero, negative
/// (top bit set) or positive, exactly one of the three.
pub open spec fn flag_for(value: u16) -> u16 {
    if value == 0 {
        2
    } else if value >= 0x8000 {
        4
    } else {
        1
    }
}

/// The low `bits` bits of `value` as a two's-complement number spread
/// over the full word: bits [15:bits] are copies of bit `bits - 1`.
pub open spec fn sext(value: u16, bits: u16) -> u16
    recommends
        1 <= bits <= 16,
{
    if bits >= 16 {
        value
    } else if (value >> ((bits - 1) as u16)) & 1 == 1 {
        value | ((0xFFFFu32 << (bits as u32)) as u16)
    } else {
        value
    }
}

/// A word as a signed number: two's complement over 16 bits.
pub open spec fn to_signed(value: u16) -> int {
    if value >= 0x8000 {
        value - 0x10000
    } else {
        value as int
    }
}

/// The low `bits` bits of `value` as a signed number, when the higher
/// bits of `value` are zero.
pub open spec fn signed_field(value: u16, bits: u16) -> int
    recommends
        1 <= bits <= 16,
{
    if (value >> ((bits - 1) as u16)) & 1 == 1 {
        value - ((1u32 << (bits as u32)) as int)
    } else {
        value as int
    }
}

/// The register file at power-on: zero everywhere, the program counter
/// at its starting address.
pub open spec fn initial_regs(program_counter_start: u16) -> Seq<u16> {
    Seq::new(AMOUNT_OF_REGISTERS as nat, |i: int| if i == PROGRAM_COUNTER_INDEX as int { program_counter_start } else { 0u16 })
}

/// The machine at power-on: registers as above, memory all zero.
pub open spec fn initial_state(program_counter_start: u16) -> MachineState {
    MachineState {
        regs: initial_regs(program_counter_start),
        mem: Seq::new(MEMORY_SIZE as nat, |i: int| 0u16),
        halted: false,
    }
}

/// The memory after one keyboard poll that delivered `byte`: a nonzero
/// byte sets the status word's top bit and stores the byte; a zero
/// byte clears the status word.
pub open spec fn poll_mem(m: Seq<u16>, byte: u8) -> Seq<u16> {
    if byte != 0 {
        m.update(KEYBOARD_STATUS_ADDRESS as int, 0x8000u16).update(KEYBOARD_DATA_ADDRESS as int, byte as u16)
    } else {
        m.update(KEYBOARD_STATUS_ADDRESS as int, 0u16)
    }
}

/// One successful memory read: pure at every address but the keyboard
/// status word, where some poll happened first; the value read is the
/// word at `addr` afterwards.
pub open spec fn read_step(m0: Seq<u16>, addr: u16, m1: Seq<u16>, value: u16) -> bool {
    if addr != KEYBOARD_STATUS_ADDRESS {
        m1 == m0 && value == m0[addr as int]
    } else {
        (exists|byte: u8| m1 == poll_mem(m0, byte)) && value == m1[addr as int]
    }
}

/// The two memories agree everywhere but at the two keyboard words,
/// which polls may have rewritten to what a poll can leave there.
pub open spec fn keyboard_evolved(m0: Seq<u16>, m1: Seq<u16>) -> bool {
    &&& m1.len() == m0.len()
    &&& forall|a: int|
        0 <= a < m0.len() && a != KEYBOARD_STATUS_ADDRESS as int && a != KEYBOARD_DATA_ADDRESS as int
            ==> m1[a] == m0[a]
    &&& (m1[KEYBOARD_STATUS_ADDRESS as int] == m0[KEYBOARD_STATUS_ADDRESS as int]
        || m1[KEYBOARD_STATUS_ADDRESS as int] == 0 || m1[KEYBOARD_STATUS_ADDRESS as int] == 0x8000)
    &&& (m1[KEYBOARD_DATA_ADDRESS as int] == m0[KEYBOARD_DATA_ADDRESS as int]
        || m1[KEYBOARD_DATA_ADDRESS as int] < 0x100)
}

// Operand fields of an instruction word.

/// The opcode: the high four bits.
pub open spec fn opcode_of(instruction: u16) -> u16 {
    instruction >> 12
}

/// The destination register field, bits [11:9] (the source register
/// of the store instructions lives in the same bits).
pub open spec fn dst_of(instruction: u16) -> int {
    ((instruction >> 9) & 0b111) as int
}

/// The first source or base register field, bits [8:6].
pub open spec fn src_of(instruction: u16) -> int {
    ((instruction >> 6) & 0b111) as int
}

/// The second source register field, bits [2:0].
pub open spec fn src2_of(instruction: u16) -> int {
    (instruction & 0b111) as int
}

/// Whether bit 5 selects the immediate form of ADD and AND.
pub open spec fn imm_flag_of(instruction: u16) -> bool {
    (instruction >> 5) & 1 == 1
}

/// The sign-extended five-bit immediate of ADD and AND.
pub open spec fn imm5_of(instruction: u16) -> u16 {
    sext(instruction & 0b11111, 5)
}

/// The sign-extended six-bit offset of LDR and STR.
pub open spec fn off6_of(instruction: u16) -> u16 {
    sext(instruction & 0b111111, 6)
}

/// The sign-extended nine-bit offset of the PC-relative instructions.
pub open spec fn off9_of(instruction: u16) -> u16 {
    sext(instruction & 0b111111111, 9)
}

/// The sign-extended eleven-bit offset of JSR.
pub open spec fn off11_of(instruction: u16) -> u16 {
    sext(instruction & 0b11111111111, 11)
}

/// Whether bit 11 selects the offset form of JSR.
pub open spec fn jsr_flag_of(instruction: u16) -> bool {
    (instruction >> 11) & 1 == 1
}

/// The branch mask, bits [11:9]: negative, zero, positive.
pub open spec fn nzp_of(instruction: u16) -> u16 {
    (instruction >> 9) & 0b111
}

/// The trap vector: the low eight bits of a TRAP word.
pub open spec fn trap_vector_of(instruction: u16) -> u16 {
    instruction & 0xFF
}

/// The bounds the operand fields obey: an opcode is one of sixteen,
/// and a register field names one of the eight general registers.
pub proof fn lemma_instruction_fields(instruction: u16)
    by (bit_vector)
    ensures
        instruction >> 12 < 16,
        (instruction >> 9) & 0b111 < 8,
        (instruction >> 6) & 0b111 < 8,
        instruction & 0b111 < 8,
{
}

/// A register file after a flag-updating write: the word goes to
/// `dst`, and the condition flag describes it.
pub open spec fn flagged_write(regs: Seq<u16>, dst: int, value: u16) -> Seq<u16> {
    regs.update(dst, value).update(CONDITION_FLAG_INDEX as int, flag_for(value))
}

// What each instruction does to the state.  The deterministic ones
// are functions from the state; the ones that may poll the keyboard
// or read standard input are relations.

/// A flag-updating write of `value` to register `dst`.
pub open spec fn written_state(s: MachineState, dst: int, value: u16) -> MachineState {
    with_regs(s, flagged_write(s.regs, dst, value))
}

/// BR: add the offset to the program counter when the mask meets the
/// condition flag; otherwise nothing.
pub open spec fn branch_result(s: MachineState, nzp: u16, offset: u16) -> MachineState {
    if nzp & cond_of(s) != 0 {
        with_regs(s, s.regs.update(PROGRAM_COUNTER_INDEX as int, wrap_add(pc_of(s), offset)))
    } else {
        s
    }
}

/// JMP: the program counter jumps to the base register's word.
pub open spec fn jump_result(s: MachineState, base: int) -> MachineState {
    with_regs(s, s.regs.update(PROGRAM_COUNTER_INDEX as int, s.regs[base]))
}

/// JSRR: R7 keeps the return address, then the program counter jumps
/// to the base register's word (R7's new word, when R7 is the base).
pub open spec fn jump_subroutine_result(s: MachineState, base: int) -> MachineState {
    let linked = s.regs.update(7, pc_of(s));
    with_regs(s, linked.update(PROGRAM_COUNTER_INDEX as int, linked[base]))
}

/// JSR: R7 keeps the return address, then the offset is added to the
/// program counter.
pub open spec fn jump_subroutine_offset_result(s: MachineState, offset: u16) -> MachineState {
    let linked = s.regs.update(7, pc_of(s));
    with_regs(s, linked.update(PROGRAM_COUNTER_INDEX as int, wrap_add(pc_of(s), offset)))
}

/// ST and STR: the source register's word goes to memory.
pub open spec fn store_result(s: MachineState, src: int, addr: u16) -> MachineState {
    with_mem(s, s.mem.update(addr as int, s.regs[src]))
}

/// LD, LDR and the second half of LDI: one memory read whose value is
/// written to `dst` with a flag update.  Fails only when the address
/// is the keyboard status word and the poll found no byte.
pub open spec fn load_from_rel(
    s0: MachineState,
    dst: int,
    addr: u16,
    s1: MachineState,
    r: Result<(), VmError>,
) -> bool {
    &&& (addr != KEYBOARD_STATUS_ADDRESS ==> r is Ok)
    &&& match r {
        Ok(_) => exists|m1: Seq<u16>, value: u16|
            read_step(s0.mem, addr, m1, value) && s1 == (MachineState {
                regs: flagged_write(s0.regs, dst, value),
                mem: m1,
                halted: s0.halted,
            }),
        Err(e) => s1 == s0 && e == VmError::InputFailed && addr == KEYBOARD_STATUS_ADDRESS,
    }
}

/// LDI: a first read finds the address, a second read finds the word,
/// which is written to `dst` with a flag update.
pub open spec fn load_indirect_rel(
    s0: MachineState,
    dst: int,
    addr: u16,
    s1: MachineState,
    r: Result<(), VmError>,
) -> bool {
    &&& (addr != KEYBOARD_STATUS_ADDRESS && s0.mem[addr as int] != KEYBOARD_STATUS_ADDRESS
        ==> r is Ok)
    &&& match r {
        Ok(_) => exists|m1: Seq<u16>, indirect: u16, m2: Seq<u16>, value: u16|
            read_step(s0.mem, addr, m1, indirect) && read_step(m1, indirect, m2, value)
                && s1 == (MachineState {
                regs: flagged_write(s0.regs, dst, value),
                mem: m2,
                halted: s0.halted,
            }),
        Err(e) => e == VmError::InputFailed && ((s1 == s0 && addr == KEYBOARD_STATUS_ADDRESS)
            || exists|m1: Seq<u16>, indirect: u16|
            read_step(s0.mem, addr, m1, indirect) && indirect == KEYBOARD_STATUS_ADDRESS
                && s1 == with_mem(s0, m1)),
    }
}

/// STI: one read finds the target address, where the source
/// register's word is then stored.
pub open spec fn store_indirect_rel(
    s0: MachineState,
    src: int,
    addr: u16,
    s1: MachineState,
    r: Result<(), VmError>,
) -> bool {
    &&& (addr != KEYBOARD_STATUS_ADDRESS ==> r is Ok)
    &&& match r {
        Ok(_) => exists|m1: Seq<u16>, target: u16|
            read_step(s0.mem, addr, m1, target) && s1 == with_mem(
                s0,
                m1.update(target as int, s0.regs[src]),
            ),
        Err(e) => s1 == s0 && e == VmError::InputFailed && addr == KEYBOARD_STATUS_ADDRESS,
    }
}

/// GETC and IN: some byte read from standard input lands in R0, with
/// no flag update; or the read failed and nothing changed.
pub open spec fn read_character_rel(
    s0: MachineState,
    s1: MachineState,
    r: Result<(), VmError>,
) -> bool {
    match r {
        Ok(_) => exists|byte: u8| s1 == with_regs(s0, #[trigger] s0.regs.update(0, byte as u16)),
        Err(e) => s1 == s0 && e == VmError::InputFailed,
    }
}

/// The string at `start` ends with its zero terminator after exactly
/// `count` nonzero words.
pub open spec fn terminated_string_length(mem: Seq<u16>, start: u16, count: u16) -> bool {
    &&& mem[wrap_add(start, count) as int] == 0
    &&& forall|j: u16| j < count ==> mem[#[trigger] wrap_add(start, j) as int] != 0
}

/// No scanned address, the terminator's included, is the keyboard
/// status word, so the scan polls nothing.
pub open spec fn scan_avoids_keyboard(start: u16, count: u16) -> bool {
    forall|j: u16| j <= count ==> #[trigger] wrap_add(start, j) != KEYBOARD_STATUS_ADDRESS
}

/// The `count` words of the string at `start`, in scan order.
pub open spec fn scanned_words(mem: Seq<u16>, start: u16, count: int) -> Seq<u16> {
    Seq::new(count as nat, |j: int| mem[wrap_add(start, j as u16) as int])
}

/// The bytes PUTS prints for a string: each word's low byte.
pub open spec fn low_bytes(words: Seq<u16>) -> Seq<u8> {
    Seq::new(words.len(), |j: int| (words[j] & 0xFF) as u8)
}

/// The bytes PUTSP prints for one word: the low byte, then the high
/// byte unless it is zero.
pub open spec fn packed_word_bytes(word: u16) -> Seq<u8> {
    if word >> 8 == 0 {
        seq![(word & 0xFF) as u8]
    } else {
        seq![(word & 0xFF) as u8, (word >> 8) as u8]
    }
}

/// The bytes PUTSP prints for a string: each word's packed pair, in
/// scan order.
pub open spec fn packed_bytes(words: Seq<u16>) -> Seq<u8>
    decreases words.len(),
{
    if words.len() == 0 {
        Seq::empty()
    } else {
        packed_bytes(words.drop_last()) + packed_word_bytes(words.last())
    }
}

/// PUTS and PUTSP: the registers stay, and only the keyboard words of
/// the memory may have moved, through the polls the string scan made.
/// When the string at R0 ends in a zero word without the scan ever
/// touching the keyboard status word, no outside call decides
/// anything: the trap succeeds and the whole state stays as it was.
pub open spec fn print_string_rel(
    s0: MachineState,
    s1: MachineState,
    r: Result<(), VmError>,
) -> bool {
    &&& s1.regs == s0.regs
    &&& s1.halted == s0.halted
    &&& keyboard_evolved(s0.mem, s1.mem)
    &&& (r is Err ==> r == Err::<(), VmError>(VmError::InputFailed))
    &&& forall|count: u16|
        #[trigger] terminated_string_length(s0.mem, s0.regs[0], count) && scan_avoids_keyboard(
            s0.regs[0],
            count,
        ) ==> r is Ok && s1 == s0
}

/// One more read keeps the memory within `keyboard_evolved` of where
/// the scan started: a poll rewrites only the two keyboard words, and
/// only to what a poll can leave there.
pub proof fn lemma_keyboard_evolved_read(
    base: Seq<u16>,
    m0: Seq<u16>,
    addr: u16,
    m1: Seq<u16>,
    value: u16,
)
    requires
        base.len() == MEMORY_SIZE,
        keyboard_evolved(base, m0),
        read_step(m0, addr, m1, value),
    ensures
        keyboard_evolved(base, m1),
{
    if addr == KEYBOARD_STATUS_ADDRESS {
        let byte = choose|b: u8| m1 == poll_mem(m0, b);
        assert(m1 == poll_mem(m0, byte));
        assert forall|a: int|
            0 <= a < base.len() && a != KEYBOARD_STATUS_ADDRESS as int && a
                != KEYBOARD_DATA_ADDRESS as int implies m1[a] == base[a] by {
            assert(m0[a] == base[a]);
        }
        assert(m1[KEYBOARD_STATUS_ADDRESS as int] == 0 || m1[KEYBOARD_STATUS_ADDRESS as int]
            == 0x8000);
        assert(m1[KEYBOARD_DATA_ADDRESS as int] == m0[KEYBOARD_DATA_ADDRESS as int]
            || m1[KEYBOARD_DATA_ADDRESS as int] < 0x100);
    }
}

/// What the trap service routine with the given vector does, once R7
/// holds the return address.
pub open spec fn trap_service_rel(
    s0: MachineState,
    vector: u16,
    s1: MachineState,
    r: Result<(), VmError>,
) -> bool {
    if vector == 0x20 || vector == 0x23 {
        read_character_rel(s0, s1, r)
    } else if vector == 0x21 {
        s1 == s0 && r is Ok
    } else if vector == 0x22 || vector == 0x24 {
        print_string_rel(s0, s1, r)
    } else if vector == 0x25 {
        s1 == (MachineState { halted: true, ..s0 }) && r is Ok
    } else {
        false
    }
}

/// Whether a trap vector names a service routine.
pub open spec fn valid_trap_vector(vector: u16) -> bool {
    0x20 <= vector <= 0x25
}

/// TRAP: an invalid vector is fatal before anything changes; a valid
/// one stores the return address in R7 and runs its routine.
pub open spec fn trap_rel(
    s0: MachineState,
    vector: u16,
    s1: MachineState,
    r: Result<(), VmError>,
) -> bool {
    if valid_trap_vector(vector) {
        trap_service_rel(with_regs(s0, s0.regs.update(7, pc_of(s0))), vector, s1, r)
    } else {
        s1 == s0 && r == Err::<(), VmError>(VmError::InvalidTrapVector)
    }
}

/// What executing one instruction word does to the state: the effect
/// of the word's opcode on the word's operand fields.
pub open spec fn decode_rel(
    s0: MachineState,
    instruction: u16,
    s1: MachineState,
    r: Result<(), VmError>,
) -> bool {
    let op = opcode_of(instruction);
    if op == 0 {
        r is Ok && s1 == branch_result(s0, nzp_of(instruction), off9_of(instruction))
    } else if op == 1 {
        r is Ok && s1 == written_state(
            s0,
            dst_of(instruction),
            wrap_add(
                s0.regs[src_of(instruction)],
                if imm_flag_of(instruction) {
                    imm5_of(instruction)
                } else {
                    s0.regs[src2_of(instruction)]
                },
            ),
        )
    } else if op == 2 {
        load_from_rel(s0, dst_of(instruction), wrap_add(pc_of(s0), off9_of(instruction)), s1, r)
    } else if op == 3 {
        r is Ok && s1 == store_result(
            s0,
            dst_of(instruction),
            wrap_add(pc_of(s0), off9_of(instruction)),
        )
    } else if op == 4 {
        r is Ok && s1 == (if jsr_flag_of(instruction) {
            jump_subroutine_offset_result(s0, off11_of(instruction))
        } else {
            jump_subroutine_result(s0, src_of(instruction))
        })
    } else if op == 5 {
        r is Ok && s1 == written_state(
            s0,
            dst_of(instruction),
            s0.regs[src_of(instruction)] & (if imm_flag_of(instruction) {
                imm5_of(instruction)
            } else {
                s0.regs[src2_of(instruction)]
            }),
        )
    } else if op == 6 {
        load_from_rel(
            s0,
            dst_of(instruction),
            wrap_add(s0.regs[src_of(instruction)], off6_of(instruction)),
            s1,
            r,
        )
    } else if op == 7 {
        r is Ok && s1 == store_result(
            s0,
            dst_of(instruction),
            wrap_add(s0.regs[src_of(instruction)], off6_of(instruction)),
        )
    } else if op == 8 {
        s1 == s0 && r == Err::<(), VmError>(VmError::UnsupportedOpcode)
    } else if op == 9 {
        r is Ok && s1 == written_state(s0, dst_of(instruction), !s0.regs[src_of(instruction)])
    } else if op == 10 {
        load_indirect_rel(
            s0,
            dst_of(instruction),
            wrap_add(pc_of(s0), off9_of(instruction)),
            s1,
            r,
        )
    } else if op == 11 {
        store_indirect_rel(
            s0,
            dst_of(instruction),
            wrap_add(pc_of(s0), off9_of(instruction)),
            s1,
            r,
        )
    } else if op == 12 {
        r is Ok && s1 == jump_result(s0, src_of(instruction))
    } else if op == 13 {
        s1 == s0 && r == Err::<(), VmError>(VmError::UnsupportedOpcode)
    } else if op == 14 {
        r is Ok && s1 == written_state(
            s0,
            dst_of(instruction),
            wrap_add(pc_of(s0), off9_of(instruction)),
        )
    } else if op == 15 {
        trap_rel(s0, trap_vector_of(instruction), s1, r)
    } else {
        false
    }
}

/// One fetch-decode-execute step: nothing once halted; otherwise the
/// word at the program counter is fetched (a read, so the keyboard
/// may be polled), the counter advances by one, and the word runs.
pub open spec fn step_rel(s0: MachineState, s1: MachineState, r: Result<(), VmError>) -> bool {
    if s0.halted {
        s1 == s0 && r is Ok
    } else {
        (exists|m1: Seq<u16>, word: u16|
            read_step(s0.mem, pc_of(s0), m1, word) && decode_rel(
                MachineState {
                    regs: s0.regs.update(PROGRAM_COUNTER_INDEX as int, wrap_add(pc_of(s0), 1)),
                    mem: m1,
                    halted: s0.halted,
                },
                word,
                s1,
                r,
            )) || (pc_of(s0) == KEYBOARD_STATUS_ADDRESS && s1 == s0 && r == Err::<(), VmError>(
            VmError::InputFailed,
        ))
    }
}

/// `count` successful steps in a row.
pub open spec fn steps_rel(count: nat, s0: MachineState, s1: MachineState) -> bool
    decreases count,
{
    if count == 0 {
        s1 == s0
    } else {
        exists|mid: MachineState|
            step_rel(s0, mid, Ok::<(), VmError>(())) && steps_rel((count - 1) as nat, mid, s1)
    }
}

/// One more successful step extends a run of successful steps.
pub proof fn lemma_steps_rel_snoc(
    count: nat,
    s0: MachineState,
    s1: MachineState,
    s2: MachineState,
)
    requires
        steps_rel(count, s0, s1),
        step_rel(s1, s2, Ok::<(), VmError>(())),
    ensures
        steps_rel(count + 1, s0, s2),
    decreases count,
{
    if count == 0 {
        assert(steps_rel(0, s2, s2));
        assert(step_rel(s0, s2, Ok::<(), VmError>(())));
    } else {
        let mid = choose|mid: MachineState|
            step_rel(s0, mid, Ok::<(), VmError>(())) && steps_rel((count - 1) as nat, mid, s1);
        lemma_steps_rel_snoc((count - 1) as nat, mid, s1, s2);
        assert(step_rel(s0, mid, Ok::<(), VmError>(())) && steps_rel(count, mid, s2));
    }
}

} // verus!
