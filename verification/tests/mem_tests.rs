use chip8::fault::Fault;
use chip8::mem::Mem;

#[test]
fn fresh_memory_is_zeroed() {
    let mem = Mem::new();

    assert_eq!(mem.read(0, 16).unwrap(), vec![0u8; 16]);
    assert_eq!(mem.read(4090, 6).unwrap(), vec![0u8; 6]);
}

#[test]
fn write_then_read_round_trips() {
    let mut mem = Mem::new();

    mem.write(0x321, &[0xDE, 0xAD, 0xBE, 0xEF]).unwrap();

    assert_eq!(mem.read(0x321, 4).unwrap(), vec![0xDE, 0xAD, 0xBE, 0xEF]);
    // neighbours untouched
    assert_eq!(mem.read(0x320, 1).unwrap(), vec![0]);
    assert_eq!(mem.read(0x325, 1).unwrap(), vec![0]);
}

#[test]
fn write_past_end_faults_and_changes_nothing() {
    let mut mem = Mem::new();

    assert_eq!(mem.write(4095, &[1, 2]), Err(Fault::OutOfBounds));
    assert_eq!(mem.read(4095, 1).unwrap(), vec![0]);
}

#[test]
fn read_past_end_faults() {
    let mem = Mem::new();

    assert_eq!(mem.read(4095, 2), Err(Fault::OutOfBounds));
    assert_eq!(mem.read(4096, 1), Err(Fault::OutOfBounds));
    assert!(mem.read(4096, 0).is_ok());
}

#[test]
fn read_opcode_is_big_endian_and_unaligned() {
    let mut mem = Mem::new();
    mem.write(0x301, &[0xAB, 0xCD]).unwrap();

    assert_eq!(mem.read_opcode(0x301).unwrap(), 0xABCD);
    assert_eq!(mem.read_opcode(0x302).unwrap(), 0xCD00);
    assert_eq!(mem.read_opcode(4094).unwrap(), 0);
    assert_eq!(mem.read_opcode(4095), Err(Fault::OutOfBounds));
}

#[test]
fn load_font_writes_the_font_table() {
    let mut mem = Mem::new();
    mem.load_font();

    // glyph 1 sits at offset 5
    assert_eq!(mem.read(5, 5).unwrap(), vec![0x20, 0x60, 0x20, 0x20, 0x70]);
    // the byte after the 80-byte table stays zero
    assert_eq!(mem.read(80, 1).unwrap(), vec![0]);
}

#[test]
fn load_program_starts_at_program_origin() {
    let mut mem = Mem::new();
    mem.load_program(&[0x11, 0x22, 0x33]).unwrap();

    assert_eq!(mem.read(0x200, 3).unwrap(), vec![0x11, 0x22, 0x33]);
    assert_eq!(mem.read(0x1FF, 1).unwrap(), vec![0]);
}

#[test]
fn load_program_rejects_oversized_image() {
    let mut mem = Mem::new();
    let image = vec![0x55u8; 3585];

    assert_eq!(mem.load_program(&image), Err(Fault::OutOfBounds));
    assert_eq!(mem.read(0x200, 1).unwrap(), vec![0]);

    let exact = vec![0x55u8; 3584];
    mem.load_program(&exact).unwrap();
    assert_eq!(mem.read(4095, 1).unwrap(), vec![0x55]);
}
