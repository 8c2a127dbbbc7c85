use chip8::machine::{PROGRAM_SPACE, RAM_SIZE, STACK_DEPTH};
use chip8::{Chip8, Chip8Error};

#[test]
fn test_placeholder() {
    let result = 2 + 2;
    assert_eq!(result, 4);
}

#[test]
fn test_font_initialization() {
    let mut chip = Chip8::default();
    chip.load_font();
    assert_eq!(chip.read_byte(0x000), Ok(0xF0));
}

#[test]
fn test_byte_rwops() {
    let mut chip = Chip8::default();
    chip.write_byte(0x000, 0xAF).unwrap();
    assert_eq!(chip.read_byte(0x000), Ok(0xAF));
}

#[test]
fn test_reset_ram() {
    let mut chip = Chip8::default();
    chip.initialize_ram();
    chip.load_font();
    chip.load_program(&[0xB2, 0xF2]).unwrap();
    let before = chip.ram_to_text(8);
    assert_eq!(chip.read_byte(0x200), Ok(0xB2));
    assert_eq!(chip.read_byte(0x201), Ok(0xF2));

    chip.reset_ram();
    let after = chip.ram_to_text(8);
    assert_ne!(before, after);
    assert_eq!(chip.read_byte(0x200), Ok(0x00));
    assert_eq!(chip.read_byte(0x201), Ok(0x00));
    assert_eq!(chip.read_byte(0x000), Ok(0xF0));
}

#[test]
fn test_dump_to_file() {
    let mut chip8 = Chip8::default();
    chip8.initialize_ram();
    chip8.load_font();
    let text = chip8.ram_to_text(8);
    let mut lines = text.lines();
    assert_eq!(lines.next(), Some("Offset(h) 00 01 02 03 04 05 06 07 "));
    assert_eq!(lines.next(), Some(""));
    assert_eq!(lines.next(), Some("00000000  F0 90 90 90 F0 20 60 20 "));
    assert_eq!(text.lines().count(), 2 + 512);
    assert_eq!(text.lines().last(), Some("00000FF8  00 00 00 00 00 00 00 00 "));
}

#[test]
fn test_basic_stack_ops() {
    let mut chip8 = Chip8::new();
    chip8.init_stack();
    chip8.push_stack(0x0FFF).unwrap();
    chip8.push_stack(0xFAF).unwrap();

    assert_eq!(chip8.pop_stack(), Ok(0xFAF));
    assert_eq!(chip8.pop_stack(), Ok(0xFFF));
}

#[test]
fn write_then_read_every_kind_of_address() {
    let mut chip = Chip8::new();
    for (a, v) in [(0x000usize, 0x12u8), (0x04F, 0x34), (0x200, 0x56), (0xFFF, 0x78)] {
        chip.write_byte(a, v).unwrap();
        assert_eq!(chip.read_byte(a), Ok(v));
    }
}

#[test]
fn out_of_range_accesses_are_refused() {
    let mut chip = Chip8::new();
    assert_eq!(
        chip.read_byte(RAM_SIZE),
        Err(Chip8Error::AddressOutOfRange { address: RAM_SIZE })
    );
    assert_eq!(
        chip.write_byte(0x1000, 1),
        Err(Chip8Error::AddressOutOfRange { address: 0x1000 })
    );
    assert_eq!(
        chip.read_word(0xFFF),
        Err(Chip8Error::AddressOutOfRange { address: 0xFFF })
    );
    assert_eq!(
        chip.write_word(0xFFF, 0x1234),
        Err(Chip8Error::AddressOutOfRange { address: 0xFFF })
    );
    assert!(chip.ram().iter().all(|b| *b == 0));
}

#[test]
fn words_are_big_endian() {
    let mut chip = Chip8::new();
    chip.write_word(0x300, 0xABCD).unwrap();
    assert_eq!(chip.read_byte(0x300), Ok(0xAB));
    assert_eq!(chip.read_byte(0x301), Ok(0xCD));
    assert_eq!(chip.read_word(0x300), Ok(0xABCD));
    assert_eq!(chip.read_word(0xFFE), Ok(0x0000));
}

#[test]
fn initialize_ram_loads_font_and_clears_the_rest() {
    let mut chip = Chip8::new();
    chip.write_byte(0x100, 9).unwrap();
    chip.initialize_ram();
    assert_eq!(chip.read_byte(0x04F), Ok(0x80));
    assert_eq!(chip.read_byte(0x050), Ok(0x00));
    assert_eq!(chip.read_byte(0x100), Ok(0x00));
    assert_eq!(chip.total_ram(), 4096);
}

#[test]
fn reset_ram_keeps_the_bytes_below_the_program_region() {
    let mut chip = Chip8::new();
    chip.write_byte(0x100, 9).unwrap();
    chip.write_byte(0x300, 7).unwrap();
    chip.reset_ram();
    assert_eq!(chip.read_byte(0x100), Ok(9));
    assert_eq!(chip.read_byte(0x300), Ok(0));
    assert_eq!(chip.read_byte(0x005), Ok(0x20));
}

#[test]
fn programs_that_fill_the_region_load_and_longer_ones_do_not() {
    let mut chip = Chip8::new();
    let full = vec![0xAAu8; PROGRAM_SPACE];
    assert_eq!(chip.load_program(&full), Ok(()));
    assert_eq!(chip.read_byte(0xFFF), Ok(0xAA));
    assert_eq!(chip.read_byte(0x1FF), Ok(0x00));

    let mut fresh = Chip8::new();
    let long = vec![0xBBu8; PROGRAM_SPACE + 1];
    assert_eq!(
        fresh.load_program(&long),
        Err(Chip8Error::InvalidProgramSize { length: PROGRAM_SPACE + 1 })
    );
    assert!(fresh.ram().iter().all(|b| *b == 0));
}

#[test]
fn stack_overflow_and_underflow() {
    let mut chip = Chip8::new();
    assert_eq!(chip.pop_stack(), Err(Chip8Error::StackUnderflow));
    for i in 0..STACK_DEPTH {
        assert_eq!(chip.push_stack(i as u16), Ok(()));
    }
    assert_eq!(chip.push_stack(99), Err(Chip8Error::StackOverflow));
    assert_eq!(chip.stack().len(), STACK_DEPTH);
    assert_eq!(chip.stack()[STACK_DEPTH - 1], (STACK_DEPTH - 1) as u16);
}

#[test]
fn timers_count_down_to_zero_and_stay_there() {
    let mut chip = Chip8::new();
    chip.set_timers(2, 0);
    chip.tick_timers();
    assert_eq!((chip.delay_timer(), chip.sound_timer()), (1, 0));
    chip.tick_timers();
    assert_eq!((chip.delay_timer(), chip.sound_timer()), (0, 0));
    chip.tick_timers();
    assert_eq!((chip.delay_timer(), chip.sound_timer()), (0, 0));
}

#[test]
fn address_register_keeps_twelve_bits() {
    let mut chip = Chip8::new();
    chip.set_index_register(0xF234);
    assert_eq!(chip.index_register(), 0x0234);
    let mut i: u16 = 0;
    chip8::machine::new_annn(&mut i, 0xABCD);
    assert_eq!(i, 0x0BCD);
}
