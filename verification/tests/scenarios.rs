use lc3_vm::lc3_virtual_machine::LC3VirtualMachine;
use lc3_vm::register::{Flag, Register};

#[test]
fn scenario_add_immediate_sets_positive_flag() {
    let mut virtual_machine = LC3VirtualMachine::new(0);
    virtual_machine.decode_instruction(0b0001_000_000_1_00001).unwrap();

    assert_eq!(virtual_machine.read_register(Register::R0), 1);
    assert_eq!(virtual_machine.read_register(Register::ConditionFlag), Flag::POSITIVE.word());
}

#[test]
fn scenario_add_register_forms_sum() {
    let mut virtual_machine = LC3VirtualMachine::new(0);
    virtual_machine.decode_instruction(0b0001_000_000_1_00001).unwrap();
    virtual_machine.decode_instruction(0b0001_001_001_1_00001).unwrap();
    virtual_machine.decode_instruction(0b0001_010_000_0_00001).unwrap();

    assert_eq!(virtual_machine.read_register(Register::R2), 2);
    assert_eq!(virtual_machine.read_register(Register::ConditionFlag), Flag::POSITIVE.word());
}

#[test]
fn scenario_branch_on_positive_advances_program_counter() {
    let mut virtual_machine = LC3VirtualMachine::new(0);
    virtual_machine.decode_instruction(0b0001_000_000_1_00001).unwrap();
    virtual_machine.decode_instruction(0b0000_001_000000010).unwrap();

    assert_eq!(virtual_machine.read_register(Register::ProgramCounter), 2);
    assert_eq!(virtual_machine.read_register(Register::ConditionFlag), Flag::POSITIVE.word());
}

#[test]
fn scenario_negation_with_not_gives_complement() {
    let mut virtual_machine = LC3VirtualMachine::new(0);
    virtual_machine.decode_instruction(0b0001_000_000_1_00101).unwrap();
    virtual_machine.decode_instruction(0b1001_000_000_111111).unwrap();

    assert_eq!(virtual_machine.read_register(Register::R0), 0xFFFA);
}

#[test]
fn scenario_store_then_load_round_trips() {
    let mut virtual_machine = LC3VirtualMachine::new(0);
    virtual_machine.decode_instruction(0b0001_000_000_1_00101).unwrap();
    virtual_machine.decode_instruction(0b0011_000_000000001).unwrap();
    virtual_machine.decode_instruction(0b0010_001_000000001).unwrap();

    assert_eq!(virtual_machine.read_register(Register::R1), 5);
}

#[test]
fn scenario_jump_to_subroutine_links_and_returns() {
    let mut virtual_machine = LC3VirtualMachine::new(0);
    virtual_machine.decode_instruction(0b0100_1_00000000100).unwrap();

    assert_eq!(virtual_machine.read_register(Register::ProgramCounter), 4);
    assert_eq!(virtual_machine.read_register(Register::R7), 0);

    virtual_machine.decode_instruction(0b0100_0_00_000_000000).unwrap();
    assert_eq!(virtual_machine.read_register(Register::ProgramCounter), 0);
}

#[test]
fn scenario_load_effective_address_adds_offset_to_program_counter() {
    let mut virtual_machine = LC3VirtualMachine::new(0);
    virtual_machine.decode_instruction(0b1110_000_000000011).unwrap();

    assert_eq!(virtual_machine.read_register(Register::R0), 3);
}

#[test]
fn addition_wraps_modulo_two_to_the_sixteenth() {
    let mut virtual_machine = LC3VirtualMachine::new(0);
    virtual_machine.update_register(Register::R0, 0xFFFF);
    virtual_machine.decode_instruction(0b0001_000_000_1_00001).unwrap();

    assert_eq!(virtual_machine.read_register(Register::R0), 0);
    assert_eq!(virtual_machine.read_register(Register::ConditionFlag), Flag::ZERO.word());
}

#[test]
fn branch_with_empty_mask_never_branches() {
    let mut virtual_machine = LC3VirtualMachine::new(0);
    virtual_machine.decode_instruction(0b0001_000_000_1_00001).unwrap();
    virtual_machine.decode_instruction(0b0000_000_000000010).unwrap();

    assert_eq!(virtual_machine.read_register(Register::ProgramCounter), 0);
}

#[test]
fn branch_with_full_mask_always_branches() {
    let mut virtual_machine = LC3VirtualMachine::new(0);
    virtual_machine.decode_instruction(0b0001_000_000_1_00001).unwrap();
    virtual_machine.decode_instruction(0b0000_111_000000011).unwrap();

    assert_eq!(virtual_machine.read_register(Register::ProgramCounter), 3);
}

#[test]
fn negative_immediate_sets_negative_flag() {
    let mut virtual_machine = LC3VirtualMachine::new(0);
    virtual_machine.decode_instruction(0b0001_000_000_1_11111).unwrap();

    assert_eq!(virtual_machine.read_register(Register::R0), 0xFFFF);
    assert_eq!(virtual_machine.read_register(Register::ConditionFlag), Flag::NEGATIVE.word());
}

#[test]
fn fetch_executes_the_word_under_the_program_counter() {
    let mut virtual_machine = LC3VirtualMachine::new(0x3000);
    virtual_machine.memory_write(0x3000, 0b0001_000_000_1_00001);
    virtual_machine.next_instruction().unwrap();

    assert_eq!(virtual_machine.read_register(Register::R0), 1);
    assert_eq!(virtual_machine.read_register(Register::ProgramCounter), 0x3001);
}

#[test]
fn step_count_runs_exactly_that_many_steps() {
    let mut virtual_machine = LC3VirtualMachine::new(0x3000);
    virtual_machine.memory_write(0x3000, 0b0001_000_000_1_00001);
    virtual_machine.memory_write(0x3001, 0b0001_000_000_1_00001);
    virtual_machine.memory_write(0x3002, 0b0001_000_000_1_00001);
    virtual_machine.next_instructions(3).unwrap();

    assert_eq!(virtual_machine.read_register(Register::R0), 3);
    assert_eq!(virtual_machine.read_register(Register::ProgramCounter), 0x3003);
}

#[test]
fn step_count_of_zero_changes_nothing() {
    let mut virtual_machine = LC3VirtualMachine::new(0x3000);
    virtual_machine.next_instructions(0).unwrap();

    assert_eq!(virtual_machine.read_register(Register::ProgramCounter), 0x3000);
}
