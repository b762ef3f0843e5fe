use lc3_vm::debug::{handle_debug_command, handle_interactive_line, InteractiveReply};
use lc3_vm::error::VmError;
use lc3_vm::lc3_virtual_machine::LC3VirtualMachine;
use lc3_vm::loader::load_program_image;
use lc3_vm::register::Register;
use lc3_vm::text::{parse_u16_binary, parse_u16_decimal};
use lc3_vm::trap::{low_bytes_of_words, packed_bytes_of_words};

#[test]
fn register_dump_has_fixed_format() {
    let virtual_machine = LC3VirtualMachine::new(0x3000);
    let expected = format!(
        "{}{}{}",
        "0b0000000000000000::".repeat(8),
        "0b0011000000000000::",
        "0b0000000000000000::"
    );
    assert_eq!(virtual_machine.state_of_registers(), expected);
}

#[test]
fn halt_trap_stops_the_machine() {
    let mut virtual_machine = LC3VirtualMachine::new(0x3000);
    virtual_machine.memory_write(0x3000, 0b1111_0000_0010_0101);
    virtual_machine.next_instruction().unwrap();

    assert!(virtual_machine.is_halted());
    let program_counter = virtual_machine.read_register(Register::ProgramCounter);
    virtual_machine.next_instruction().unwrap();
    assert_eq!(virtual_machine.read_register(Register::ProgramCounter), program_counter);
}

#[test]
fn reserved_opcodes_are_fatal() {
    let mut virtual_machine = LC3VirtualMachine::new(0);
    assert_eq!(
        virtual_machine.decode_instruction(0b1000_0000_0000_0000),
        Err(VmError::UnsupportedOpcode)
    );
    assert_eq!(
        virtual_machine.decode_instruction(0b1101_0000_0000_0000),
        Err(VmError::UnsupportedOpcode)
    );
}

#[test]
fn unknown_trap_vector_is_fatal() {
    let mut virtual_machine = LC3VirtualMachine::new(0);
    assert_eq!(
        virtual_machine.decode_instruction(0b1111_0000_0010_0110),
        Err(VmError::InvalidTrapVector)
    );
    assert_eq!(virtual_machine.read_register(Register::R7), 0);
}

#[test]
fn out_trap_keeps_the_state_and_links_r7() {
    let mut virtual_machine = LC3VirtualMachine::new(7);
    virtual_machine.update_register(Register::R0, 65);
    virtual_machine.decode_instruction(0b1111_0000_0010_0001).unwrap();

    assert_eq!(virtual_machine.read_register(Register::R0), 65);
    assert_eq!(virtual_machine.read_register(Register::R7), 7);
}

#[test]
fn puts_trap_prints_and_preserves_registers() {
    let mut virtual_machine = LC3VirtualMachine::new(0);
    virtual_machine.memory_write(100, 'H' as u16);
    virtual_machine.memory_write(101, 'i' as u16);
    virtual_machine.memory_write(102, 0);
    virtual_machine.update_register(Register::R0, 100);
    virtual_machine.decode_instruction(0b1111_0000_0010_0010).unwrap();

    assert_eq!(virtual_machine.read_register(Register::R0), 100);
    assert!(!virtual_machine.is_halted());
}

#[test]
fn putsp_trap_handles_packed_characters() {
    let mut virtual_machine = LC3VirtualMachine::new(0);
    virtual_machine.memory_write(100, ('H' as u16) | (('i' as u16) << 8));
    virtual_machine.memory_write(101, 0);
    virtual_machine.update_register(Register::R0, 100);
    virtual_machine.decode_instruction(0b1111_0000_0010_0100).unwrap();

    assert_eq!(virtual_machine.read_register(Register::R0), 100);
}

#[test]
fn keyboard_data_word_reads_back_as_written() {
    let mut virtual_machine = LC3VirtualMachine::new(0);
    virtual_machine.memory_write(0xFE02, 9);
    assert_eq!(virtual_machine.memory_read(0xFE02), Ok(9));
}

#[test]
fn loader_takes_origin_and_words_from_big_endian_stream() {
    let image = [0x30u8, 0x00, 0x12, 0x34, 0xAB, 0xCD];
    let mut virtual_machine = load_program_image(&image).unwrap();

    assert_eq!(virtual_machine.read_register(Register::ProgramCounter), 0x3000);
    assert_eq!(virtual_machine.memory_read(0x3000), Ok(0x1234));
    assert_eq!(virtual_machine.memory_read(0x3001), Ok(0xABCD));
}

#[test]
fn loader_drops_a_truncated_final_byte() {
    let image = [0x30u8, 0x00, 0x12];
    let mut virtual_machine = load_program_image(&image).unwrap();

    assert_eq!(virtual_machine.read_register(Register::ProgramCounter), 0x3000);
    assert_eq!(virtual_machine.memory_read(0x3000), Ok(0));
}

#[test]
fn loader_rejects_an_image_without_its_origin_word() {
    assert!(load_program_image(&[0x30u8]).is_none());
    assert!(load_program_image(&[]).is_none());
}

#[test]
fn debug_register_command_answers_with_the_dump() {
    let mut virtual_machine = LC3VirtualMachine::new(0x3000);
    let expected = virtual_machine.state_of_registers();
    let reply = handle_debug_command(&mut virtual_machine, "r").unwrap();
    assert_eq!(reply, expected);
}

#[test]
fn debug_step_command_reports_the_next_word() {
    let mut virtual_machine = LC3VirtualMachine::new(0x3000);
    virtual_machine.memory_write(0x3000, 0b0001_000_000_1_00001);
    virtual_machine.memory_write(0x3001, 0b0001_000_000_1_00010);
    let reply = handle_debug_command(&mut virtual_machine, "n").unwrap();

    assert_eq!(reply, "instruction: 0b0001000000100010");
    assert_eq!(virtual_machine.read_register(Register::R0), 1);
}

#[test]
fn debug_count_command_runs_that_many_steps() {
    let mut virtual_machine = LC3VirtualMachine::new(0x3000);
    virtual_machine.memory_write(0x3000, 0b0001_000_000_1_00001);
    virtual_machine.memory_write(0x3001, 0b0001_000_000_1_00001);
    let reply = handle_debug_command(&mut virtual_machine, "2").unwrap();

    assert_eq!(reply, "executed 2 instructions");
    assert_eq!(virtual_machine.read_register(Register::R0), 2);
}

#[test]
fn debug_rejects_anything_else() {
    let mut virtual_machine = LC3VirtualMachine::new(0x3000);
    assert_eq!(handle_debug_command(&mut virtual_machine, "step").unwrap(), "Invalid Command");
    assert_eq!(handle_debug_command(&mut virtual_machine, "65536").unwrap(), "Invalid Command");
    assert_eq!(handle_debug_command(&mut virtual_machine, "").unwrap(), "Invalid Command");
    assert_eq!(virtual_machine.read_register(Register::ProgramCounter), 0x3000);
}

#[test]
fn interactive_register_line_answers_with_the_dump() {
    let mut virtual_machine = LC3VirtualMachine::new(0x3000);
    let expected = virtual_machine.state_of_registers();
    match handle_interactive_line(&mut virtual_machine, "r").unwrap() {
        InteractiveReply::Registers(dump) => assert_eq!(dump, expected),
        _ => panic!("expected the register dump"),
    }
}

#[test]
fn interactive_binary_line_executes_and_echoes() {
    let mut virtual_machine = LC3VirtualMachine::new(0x3000);
    match handle_interactive_line(&mut virtual_machine, "0001000000100001").unwrap() {
        InteractiveReply::Instruction(echo) => {
            assert_eq!(echo, "instruction proccess: 0b0001000000100001")
        },
        _ => panic!("expected the instruction echo"),
    }
    assert_eq!(virtual_machine.read_register(Register::R0), 1);
}

#[test]
fn interactive_rejects_a_malformed_line() {
    let mut virtual_machine = LC3VirtualMachine::new(0x3000);
    assert!(matches!(
        handle_interactive_line(&mut virtual_machine, "abc").unwrap(),
        InteractiveReply::WrongFormat
    ));
    assert!(matches!(
        handle_interactive_line(&mut virtual_machine, "10000000000000000").unwrap(),
        InteractiveReply::WrongFormat
    ));
}

#[test]
fn decimal_parsing_matches_the_word_range() {
    assert_eq!(parse_u16_decimal("0"), Some(0));
    assert_eq!(parse_u16_decimal("65535"), Some(65535));
    assert_eq!(parse_u16_decimal("+3"), Some(3));
    assert_eq!(parse_u16_decimal("65536"), None);
    assert_eq!(parse_u16_decimal(""), None);
    assert_eq!(parse_u16_decimal("+"), None);
    assert_eq!(parse_u16_decimal("12a"), None);
    assert_eq!(parse_u16_decimal("-1"), None);
}

#[test]
fn binary_parsing_matches_the_word_range() {
    assert_eq!(parse_u16_binary("0"), Some(0));
    assert_eq!(parse_u16_binary("1111111111111111"), Some(65535));
    assert_eq!(parse_u16_binary("0000000000000000000"), Some(0));
    assert_eq!(parse_u16_binary("+101"), Some(5));
    assert_eq!(parse_u16_binary("11111111111111111"), None);
    assert_eq!(parse_u16_binary("102"), None);
    assert_eq!(parse_u16_binary(""), None);
}

#[test]
fn sign_extension_fills_the_high_bits() {
    assert_eq!(LC3VirtualMachine::sign_extend(0b00001, 5), 1);
    assert_eq!(LC3VirtualMachine::sign_extend(0b10001, 5), 0xFFF1);
    assert_eq!(LC3VirtualMachine::sign_extend(0b111111111, 9), 0xFFFF);
    assert_eq!(LC3VirtualMachine::sign_extend(0x7FFF, 16), 0x7FFF);
    assert_eq!(LC3VirtualMachine::sign_extend(0x8000, 16), 0x8000);
}

#[test]
fn puts_byte_sequence_takes_each_low_byte() {
    let words = vec![0x0048u16, 0xFF69, 0x0021];
    assert_eq!(low_bytes_of_words(&words), vec![0x48u8, 0x69, 0x21]);
}

#[test]
fn putsp_byte_sequence_packs_low_byte_first_and_drops_zero_high_bytes() {
    let words = vec![0x6948u16, 0x0021];
    assert_eq!(packed_bytes_of_words(&words), vec![0x48u8, 0x69, 0x21]);
}
