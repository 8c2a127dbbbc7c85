use chip8::instruction::{cls_or_ret, op_vx_vy};
use chip8::{Chip8, Chip8Error, Instruction};

fn machine_with(program: &[u8]) -> Chip8 {
    let mut chip = Chip8::new();
    chip.load_program(program).unwrap();
    chip
}

#[test]
fn test_jp_opcode() {
    let mut chip: Chip8 = Chip8::new();
    let program = &[0x12, 0xF0];
    chip.load_program(program).unwrap();
    chip.emulate_cycle().unwrap();
    assert_eq!(chip.program_counter(), 0x2F0)
}

#[test]
fn test_annn_opcode() {
    let mut chip: Chip8 = Chip8::new();
    let program = &[0xA2, 0xF0];
    chip.load_program(program).unwrap();
    chip.emulate_cycle().unwrap();
    assert_eq!(chip.program_counter(), (program.len() + 0x0200) as u16);
    assert_eq!(chip.index_register(), 0x02F0);
}

#[test]
fn test_bnnn_opcode() {
    let mut chip: Chip8 = Chip8::new();
    let program = &[0xB2, 0xF0];
    chip.load_program(program).unwrap();
    chip.emulate_cycle().unwrap();

    assert_eq!(chip.program_counter(), 0x02F0);
}

#[test]
fn two_opcode_program() {
    let mut chip: Chip8 = Chip8::new();

    // Load a byte into Vx and then JP to PC + Vx
    let program = &[0x60, 0xF0, 0xB2, 0xF0];
    chip.initialize_ram();
    chip.load_program(program).unwrap();
    chip.emulate_cycle().unwrap();
    assert_eq!(chip.register(0), 0xF0);
}

#[test]
fn jump_with_offset_adds_register_zero() {
    let mut chip = machine_with(&[0xB2, 0xF0]);
    chip.set_register(0, 0x05);
    assert_eq!(chip.emulate_cycle(), Ok(Instruction::JumpOffset { addr: 0x2F0 }));
    assert_eq!(chip.program_counter(), 0x02F5);
}

#[test]
fn second_instruction_of_a_program_runs_after_the_first() {
    let mut chip = machine_with(&[0x60, 0xF0, 0xB2, 0xF0]);
    chip.emulate_cycle().unwrap();
    chip.emulate_cycle().unwrap();
    assert_eq!(chip.program_counter(), 0xF0 + 0x2F0);
}

#[test]
fn call_then_return_restores_the_counter() {
    let mut chip = machine_with(&[0x22, 0x04, 0x00, 0x00, 0x00, 0xEE]);
    assert_eq!(chip.emulate_cycle(), Ok(Instruction::Call { addr: 0x204 }));
    assert_eq!(chip.program_counter(), 0x204);
    assert_eq!(chip.stack(), &[0x202]);
    assert_eq!(chip.emulate_cycle(), Ok(Instruction::Return));
    assert_eq!(chip.program_counter(), 0x202);
    assert!(chip.stack().is_empty());
}

#[test]
fn return_with_empty_stack_fails_and_changes_nothing() {
    let mut chip = machine_with(&[0x00, 0xEE]);
    let before = chip.snapshot();
    assert_eq!(chip.emulate_cycle(), Err(Chip8Error::StackUnderflow));
    assert_eq!(chip.snapshot(), before);
    assert_eq!(chip.program_counter(), 0x200);
}

#[test]
fn call_with_full_stack_fails_and_changes_nothing() {
    let mut chip = machine_with(&[0x23, 0x00]);
    for i in 0..16u16 {
        chip.push_stack(i).unwrap();
    }
    let before = chip.snapshot();
    assert_eq!(chip.emulate_cycle(), Err(Chip8Error::StackOverflow));
    assert_eq!(chip.snapshot(), before);
}

#[test]
fn add_with_carry_sets_the_flag() {
    let mut chip = machine_with(&[0x80, 0x14]);
    chip.set_register(0, 0xFF);
    chip.set_register(1, 0x01);
    chip.emulate_cycle().unwrap();
    assert_eq!(chip.register(0), 0x00);
    assert_eq!(chip.register(0xF), 1);

    let mut chip = machine_with(&[0x80, 0x14]);
    chip.set_register(0, 0x01);
    chip.set_register(1, 0x01);
    chip.emulate_cycle().unwrap();
    assert_eq!(chip.register(0), 0x02);
    assert_eq!(chip.register(0xF), 0);
}

#[test]
fn add_immediate_wraps_and_leaves_the_flag() {
    let mut chip = machine_with(&[0x73, 0x02]);
    chip.set_register(3, 0xFF);
    chip.set_register(0xF, 7);
    chip.emulate_cycle().unwrap();
    assert_eq!(chip.register(3), 0x01);
    assert_eq!(chip.register(0xF), 7);
}

#[test]
fn subtraction_sets_not_borrow() {
    let mut chip = machine_with(&[0x85, 0x65, 0x85, 0x65]);
    chip.set_register(5, 0x10);
    chip.set_register(6, 0x03);
    chip.emulate_cycle().unwrap();
    assert_eq!((chip.register(5), chip.register(0xF)), (0x0D, 1));
    chip.set_register(6, 0x0E);
    chip.emulate_cycle().unwrap();
    assert_eq!((chip.register(5), chip.register(0xF)), (0xFF, 0));
}

#[test]
fn reverse_subtraction_sets_not_borrow() {
    let mut chip = machine_with(&[0x81, 0x27]);
    chip.set_register(1, 0x05);
    chip.set_register(2, 0x03);
    chip.emulate_cycle().unwrap();
    assert_eq!((chip.register(1), chip.register(0xF)), (0xFE, 0));
}

#[test]
fn shifts_put_the_lost_bit_in_the_flag() {
    let mut chip = machine_with(&[0x84, 0x06, 0x85, 0x0E]);
    chip.set_register(4, 0x05);
    chip.set_register(5, 0x81);
    chip.emulate_cycle().unwrap();
    assert_eq!((chip.register(4), chip.register(0xF)), (0x02, 1));
    chip.emulate_cycle().unwrap();
    assert_eq!((chip.register(5), chip.register(0xF)), (0x02, 1));
}

#[test]
fn bitwise_operations_and_moves() {
    let mut chip = machine_with(&[0x81, 0x21, 0x83, 0x22, 0x84, 0x23, 0x85, 0x20]);
    for x in 1..=4 {
        chip.set_register(x, 0b1100);
    }
    chip.set_register(2, 0b1010);
    for _ in 0..4 {
        chip.emulate_cycle().unwrap();
    }
    assert_eq!(chip.register(1), 0b1110);
    assert_eq!(chip.register(3), 0b1000);
    assert_eq!(chip.register(4), 0b0110);
    assert_eq!(chip.register(5), 0b1010);
}

#[test]
fn skips_advance_by_an_extra_instruction() {
    // SE V1, 0x07 holds; SNE V1, 0x07 fails; SE V1, V2 fails; SNE V1, V2 holds.
    let mut chip = machine_with(&[0x31, 0x07]);
    chip.set_register(1, 0x07);
    chip.emulate_cycle().unwrap();
    assert_eq!(chip.program_counter(), 0x204);

    let mut chip = machine_with(&[0x41, 0x07]);
    chip.set_register(1, 0x07);
    chip.emulate_cycle().unwrap();
    assert_eq!(chip.program_counter(), 0x202);

    let mut chip = machine_with(&[0x51, 0x20]);
    chip.set_register(1, 0x07);
    chip.emulate_cycle().unwrap();
    assert_eq!(chip.program_counter(), 0x202);

    let mut chip = machine_with(&[0x91, 0x20]);
    chip.set_register(1, 0x07);
    chip.emulate_cycle().unwrap();
    assert_eq!(chip.program_counter(), 0x204);
}

#[test]
fn load_immediate_uses_the_second_nibble() {
    let mut chip = machine_with(&[0x6A, 0x42]);
    chip.emulate_cycle().unwrap();
    assert_eq!(chip.register(0xA), 0x42);
    assert_eq!(chip.current_opcode(), 0x6A42);
}

#[test]
fn random_is_masked_by_the_immediate() {
    let mut chip = machine_with(&[0xC3, 0xF0]);
    assert_eq!(chip.emulate_cycle_with(0xAB), Ok(Instruction::Random { x: 3, byte: 0xF0 }));
    assert_eq!(chip.register(3), 0xA0);

    let mut chip = machine_with(&[0xC3, 0x0F]);
    chip.emulate_cycle().unwrap();
    assert!(chip.register(3) <= 0x0F);
}

#[test]
fn unknown_opcode_is_reported_and_changes_nothing() {
    let mut chip = machine_with(&[0xF0, 0x00]);
    chip.set_register(2, 9);
    chip.push_stack(0x345).unwrap();
    let before = chip.snapshot();
    assert_eq!(
        chip.emulate_cycle(),
        Err(Chip8Error::UnknownOpcode { word: 0xF000, pc: 0x200 })
    );
    assert_eq!(chip.snapshot(), before);
}

#[test]
fn fetch_beyond_memory_is_an_address_error() {
    let mut chip = Chip8::new();
    chip.set_program_counter(0xFFF);
    assert_eq!(
        chip.emulate_cycle(),
        Err(Chip8Error::AddressOutOfRange { address: 0xFFF })
    );
    assert_eq!(chip.program_counter(), 0xFFF);
}

#[test]
fn clear_screen_changes_no_machine_state() {
    let mut chip = machine_with(&[0x00, 0xE0]);
    assert_eq!(chip.emulate_cycle(), Ok(Instruction::ClearScreen));
    assert_eq!(chip.program_counter(), 0x202);
}

#[test]
fn polymorphic_classes_decode_by_trailing_nibble() {
    assert_eq!(cls_or_ret(0x00E0), Some(Instruction::ClearScreen));
    assert_eq!(cls_or_ret(0x00EE), Some(Instruction::Return));
    assert_eq!(cls_or_ret(0x0123), None);
    assert_eq!(op_vx_vy(0x8AB4), Some(Instruction::AddRegister { x: 0xA, y: 0xB }));
    assert_eq!(op_vx_vy(0x8AB8), None);
    assert_eq!(Instruction::decode(0x5121), None);
    assert_eq!(Instruction::decode(0x9120), Some(Instruction::SkipNotEqualRegister { x: 1, y: 2 }));
    assert_eq!(Instruction::decode(0xD123), None);
    assert_eq!(Instruction::decode(0x2ABC), Some(Instruction::Call { addr: 0xABC }));
}

#[test]
fn instructions_carry_their_mnemonics() {
    assert_eq!(Instruction::ClearScreen.mnemonic(), "CLS");
    assert_eq!(Instruction::Call { addr: 0x300 }.mnemonic(), "CALL");
    assert_eq!(Instruction::SubReverse { x: 1, y: 2 }.mnemonic(), "SUBN");
    assert_eq!(Instruction::Random { x: 1, byte: 2 }.mnemonic(), "RND");
}
