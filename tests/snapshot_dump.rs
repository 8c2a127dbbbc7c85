use chip8::snapshot::SNAPSHOT_LEN;
use chip8::{Chip8, Chip8Error};

#[test]
fn snapshot_then_restore_reproduces_the_machine() {
    let mut chip = Chip8::new();
    chip.initialize_ram();
    chip.load_program(&[0x12, 0x34, 0x56]).unwrap();
    for x in 0..16 {
        chip.set_register(x, (x * 17) as u8);
    }
    chip.set_index_register(0x0ABC);
    chip.set_timers(5, 6);
    chip.set_program_counter(0x0246);
    chip.push_stack(0x0300).unwrap();
    chip.push_stack(0x0402).unwrap();
    let bytes = chip.snapshot();
    assert_eq!(bytes.len(), SNAPSHOT_LEN);

    let mut fresh = Chip8::new();
    assert_eq!(fresh.restore(&bytes), Ok(()));
    for x in 0..16 {
        assert_eq!(fresh.register(x), chip.register(x));
    }
    assert_eq!(fresh.index_register(), 0x0ABC);
    assert_eq!(fresh.program_counter(), 0x0246);
    assert_eq!((fresh.delay_timer(), fresh.sound_timer()), (5, 6));
    assert_eq!(fresh.stack(), &[0x0300, 0x0402]);
    assert_eq!(fresh.ram()[..], chip.ram()[..]);
    assert_eq!(fresh.snapshot(), bytes);
}

#[test]
fn restore_refuses_what_no_snapshot_holds() {
    let mut chip = Chip8::new();
    let before = chip.snapshot();
    assert_eq!(
        chip.restore(&[1, 2, 3]),
        Err(Chip8Error::InvalidSnapshot { length: 3 })
    );
    let mut deep = before.clone();
    deep[24] = 17;
    assert_eq!(
        chip.restore(&deep),
        Err(Chip8Error::InvalidSnapshot { length: SNAPSHOT_LEN })
    );
    assert_eq!(chip.snapshot(), before);
}

#[test]
fn header_has_one_label_per_column() {
    assert_eq!(Chip8::header_to_text(4), "Offset(h) 00 01 02 03 ");
    assert_eq!(Chip8::header_to_text(0), "Offset(h) ");
    assert_eq!(Chip8::header_to_text(17).len(), 10 + 3 * 17);
}

#[test]
fn dump_ends_with_a_short_row_when_rows_do_not_divide_memory() {
    let mut chip = Chip8::new();
    chip.write_byte(0xFFF, 0xC4).unwrap();
    chip.write_byte(0x001, 0x2B).unwrap();
    let text = chip.ram_to_text(3);
    let lines: Vec<&str> = text.lines().collect();
    assert_eq!(lines.len(), 2 + 1365 + 1);
    assert_eq!(lines[0], "Offset(h) 00 01 02 ");
    assert_eq!(lines[2], "00000000  00 2B 00 ");
    assert_eq!(lines[lines.len() - 1], "00000FFF  C4 ");
}
