use chip8::cpu::Cpu;
use chip8::fault::Fault;
use chip8::font::FONT_ADDRESS;

fn set_up_cpu(program: &[u8]) -> Cpu {
    let mut cpu = Cpu::new();
    cpu.load_program(program).unwrap();
    cpu
}

#[test]
fn test_00e0() {
    let mut cpu = set_up_cpu(&[0x00, 0xE0]);
    cpu.set_pixel(13, true);
    cpu.set_pixel(45, true);

    cpu.tick().unwrap();

    assert!(cpu.display().iter().all(|px| *px == false));
}

#[test]
fn op_00ee() {
    let mut cpu = set_up_cpu(&[0x00, 0xEE]);
    cpu.stack_push(599).unwrap();

    cpu.tick().unwrap();

    assert_eq!(cpu.pc(), 599);
}

#[test]
fn test_1nnn() {
    let mut cpu = set_up_cpu(&[0x1A, 0xBC]);

    cpu.tick().unwrap();

    assert_eq!(cpu.pc(), 0xABC);
}

#[test]
fn test_2nnn() {
    let mut cpu = set_up_cpu(&[0x23, 0xCD]);

    cpu.tick().unwrap();

    assert_eq!(cpu.pc(), 0x3CD);
    assert_eq!(cpu.stack_pop().unwrap(), 0x202);
}

#[test]
fn test_3xnn() {
    let mut cpu = set_up_cpu(&[0x30, 0xEE, 0x30, 0xAA]);
    cpu.set_v(0, 0xEE);

    assert_eq!(cpu.pc(), 0x200);

    cpu.tick().unwrap();

    assert_eq!(cpu.pc(), 0x204);

    cpu.tick().unwrap();

    assert_eq!(cpu.pc(), 0x206);
}

#[test]
fn test_4xnn() {
    let mut cpu = set_up_cpu(&[0x40, 0x88]);

    cpu.tick().unwrap();

    assert_eq!(cpu.pc(), 0x204);
}

#[test]
fn test_5xy0() {
    let mut cpu = set_up_cpu(&[0x5A, 0xF0]);
    cpu.set_v(0xA, 0xFF);
    cpu.set_v(0xF, 0xFF);

    cpu.tick().unwrap();

    assert_eq!(cpu.pc(), 0x204);
}

#[test]
fn test_6xnn() {
    let mut cpu = set_up_cpu(&[0x6B, 0x32]);

    cpu.tick().unwrap();

    assert_eq!(cpu.v(0xB), 0x32);
}

#[test]
fn test_7xnn() {
    let mut cpu = set_up_cpu(&[0x7A, 0xC]);
    cpu.set_v(0xA, 0x3);

    cpu.tick().unwrap();

    assert_eq!(cpu.v(0xA), 0xF);
}

#[test]
fn test_8xy0() {
    let mut cpu = set_up_cpu(&[0x80, 0x10]);
    cpu.set_v(0x1, 0x12);

    cpu.tick().unwrap();

    assert_eq!(cpu.v(0x0), 0x12);
}

#[test]
fn test_8xy1() {
    let mut cpu = set_up_cpu(&[0x80, 0x11]);
    cpu.set_v(0x0, 0b1001);
    cpu.set_v(0x1, 0b1101);

    cpu.tick().unwrap();

    assert_eq!(cpu.v(0x0), 0b1101);
}

#[test]
fn test_8xy2() {
    let mut cpu = set_up_cpu(&[0x80, 0x12]);
    cpu.set_v(0x0, 0b0011);
    cpu.set_v(0x1, 0b1010);

    cpu.tick().unwrap();

    assert_eq!(cpu.v(0x0), 0b10);
}

#[test]
fn test_8xy3() {
    let mut cpu = set_up_cpu(&[0x80, 0x13]);
    cpu.set_v(0x0, 0b1001);
    cpu.set_v(0x1, 0b1101);

    cpu.tick().unwrap();

    assert_eq!(cpu.v(0x0), 0b100);
}

#[test]
fn test_8xy4() {
    let mut cpu = set_up_cpu(&[0x80, 0x14, 0x80, 0x14]);
    cpu.set_v(0x0, 0x1B);
    cpu.set_v(0x1, 0xC);

    cpu.tick().unwrap();

    assert_eq!(cpu.v(0x0), 0x27);
    assert_eq!(cpu.v(0xF), 0);

    cpu.set_v(0x1, 0xF1);

    cpu.tick().unwrap();

    assert_eq!(cpu.v(0x0), 0x18);
    assert_eq!(cpu.v(0xF), 1);
}

#[test]
fn test_8xy5() {
    let mut cpu = set_up_cpu(&[0x80, 0x15]);
    cpu.set_v(0x0, 0xA);
    cpu.set_v(0x1, 0x6);

    cpu.tick().unwrap();

    assert_eq!(cpu.v(0x0), 0x4);
    assert_eq!(cpu.v(0xF), 1);
}

#[test]
fn test_8xy6() {
    let mut cpu = set_up_cpu(&[0x80, 0x16]);
    cpu.set_v(0x0, 0b10010);

    cpu.tick().unwrap();

    assert_eq!(cpu.v(0xF), 0);
    assert_eq!(cpu.v(0x0), 0b1001);
}

#[test]
fn test_8xy7() {
    let mut cpu = set_up_cpu(&[0x80, 0x17]);
    cpu.set_v(0x0, 0x43);
    cpu.set_v(0x1, 0x30);

    cpu.tick().unwrap();

    assert_eq!(cpu.v(0xF), 0);
    assert_eq!(cpu.v(0x0), 0xED);
}

#[test]
fn test_8xye() {
    let mut cpu = set_up_cpu(&[0x80, 0x0E]);
    cpu.set_v(0x0, 0b1001_1000);

    cpu.tick().unwrap();

    assert_eq!(cpu.v(0xF), 1);
    assert_eq!(cpu.v(0x0), 0b11_0000);
}

#[test]
fn test_9xy0() {
    let mut cpu = set_up_cpu(&[0x90, 0x10]);
    cpu.set_v(0x0, 0x12);
    cpu.set_v(0x1, 0x13);

    cpu.tick().unwrap();

    assert_eq!(cpu.pc(), 0x204);
}

#[test]
fn test_annn() {
    let mut cpu = set_up_cpu(&[0xA1, 0xFC]);

    cpu.tick().unwrap();

    assert_eq!(cpu.i_reg(), 0x1FC);
}

#[test]
fn test_bnnn() {
    let mut cpu = set_up_cpu(&[0xBA, 0x11]);
    cpu.set_v(0x0, 0x3);

    cpu.tick().unwrap();

    assert_eq!(cpu.pc(), 0xA14);
}

#[test]
fn test_dxyn() {
    let mut cpu = set_up_cpu(&[0xD0, 0x12]);
    cpu.set_pixel(64, true);
    cpu.ram.write(0, &[0b1011_0001, 0b1111_0010]).unwrap();

    cpu.tick().unwrap();

    assert_eq!(
        &cpu.display()[0..8],
        &[true, false, true, true, false, false, false, true]
    );
    assert_eq!(
        &cpu.display()[64..72],
        &[false, true, true, true, false, false, true, false]
    );

    assert_eq!(cpu.v(0xF), 1);
}

#[test]
fn test_ex9e() {
    let mut cpu = set_up_cpu(&[0xE0, 0x9E]);
    cpu.set_v(0x0, 0x7);
    cpu.key_press(0x7);

    cpu.tick().unwrap();

    assert_eq!(cpu.pc(), 0x204)
}

#[test]
fn test_exa1() {
    let mut cpu = set_up_cpu(&[0xE0, 0xA1]);
    cpu.set_v(0x0, 0x7);
    cpu.key_release(0x7);

    cpu.tick().unwrap();

    assert_eq!(cpu.pc(), 0x204)
}

#[test]
fn test_fx07() {
    let mut cpu = set_up_cpu(&[0xFC, 0x07]);
    cpu.set_delay_timer(41);

    cpu.tick().unwrap();

    assert_eq!(cpu.v(0xC), 41);
}

#[test]
fn test_fx0a() {
    let mut cpu = set_up_cpu(&[0xF0, 0x0A]);

    cpu.tick().unwrap();

    assert_eq!(cpu.pc(), 0x200);

    cpu.key_press(0xE);

    cpu.tick().unwrap();

    assert_eq!(cpu.pc(), 0x202);
    assert_eq!(cpu.v(0x0), 0xE);
}

#[test]
fn test_fx15() {
    let mut cpu = set_up_cpu(&[0xF0, 0x15]);
    cpu.set_v(0x0, 56);

    cpu.tick().unwrap();

    assert_eq!(cpu.delay_timer(), 56);
}

#[test]
fn test_fx18() {
    let mut cpu = set_up_cpu(&[0xF0, 0x18]);
    cpu.set_v(0x0, 56);

    cpu.tick().unwrap();

    assert_eq!(cpu.sound_timer(), 56);
}

#[test]
fn test_fx1e() {
    let mut cpu = set_up_cpu(&[0xF0, 0x1E]);
    cpu.set_i_reg(32);
    cpu.set_v(0x0, 56);

    cpu.tick().unwrap();

    assert_eq!(cpu.i_reg(), 88);
}

#[test]
fn test_fx29() {
    let mut cpu = set_up_cpu(&[0xF0, 0x29]);
    cpu.set_v(0x0, 1);

    cpu.tick().unwrap();

    assert_eq!(cpu.i_reg(), FONT_ADDRESS + 5);
}

#[test]
fn test_fx33() {
    let mut cpu = set_up_cpu(&[0xF0, 0x33]);
    cpu.set_v(0x0, 149);
    cpu.set_i_reg(400);

    cpu.tick().unwrap();

    assert_eq!(cpu.ram.read(400, 3).unwrap(), vec![0x1, 0x4, 0x9]);
}

#[test]
fn test_fx55() {
    let mut cpu = set_up_cpu(&[0xF4, 0x55]);
    cpu.set_v(0, 0x0);
    cpu.set_v(1, 0x1);
    cpu.set_v(2, 0x2);
    cpu.set_v(3, 0x3);
    cpu.set_v(4, 0x21);
    cpu.set_i_reg(400);

    cpu.tick().unwrap();

    assert_eq!(cpu.ram.read(400, 5).unwrap(), vec![0x0, 0x1, 0x2, 0x3, 0x21]);
}

#[test]
fn test_fx65() {
    let mut cpu = set_up_cpu(&[0xF3, 0x65]);
    cpu.ram.write(400, &[0x12, 0x34, 0x56, 0x78]).unwrap();
    cpu.set_i_reg(400);

    cpu.tick().unwrap();

    assert_eq!(cpu.v(0), 0x12);
    assert_eq!(cpu.v(1), 0x34);
    assert_eq!(cpu.v(2), 0x56);
    assert_eq!(cpu.v(3), 0x78);
}

#[test]
fn clear_sets_draw_flag() {
    let mut cpu = set_up_cpu(&[0x00, 0xE0]);
    cpu.set_pixel(100, true);
    cpu.draw_flag = false;

    cpu.tick().unwrap();

    assert!(cpu.draw_flag);
    assert!(cpu.display().iter().all(|px| *px == false));
}

#[test]
fn call_then_return_restores_pc() {
    let mut cpu = set_up_cpu(&[0x22, 0x04, 0x00, 0x00, 0x00, 0xEE]);

    cpu.tick().unwrap();
    assert_eq!(cpu.pc(), 0x204);

    cpu.tick().unwrap();
    assert_eq!(cpu.pc(), 0x202);
}

#[test]
fn store_then_load_round_trips() {
    let mut cpu = set_up_cpu(&[0xF4, 0x55, 0xF4, 0x65]);
    cpu.set_v(0, 7);
    cpu.set_v(1, 11);
    cpu.set_v(2, 13);
    cpu.set_v(3, 17);
    cpu.set_v(4, 19);
    cpu.set_i_reg(0x300);

    cpu.tick().unwrap();

    cpu.set_v(0, 0xAA);
    cpu.set_v(2, 0xBB);
    cpu.set_v(4, 0xCC);

    cpu.tick().unwrap();

    assert_eq!(cpu.v(0), 7);
    assert_eq!(cpu.v(1), 11);
    assert_eq!(cpu.v(2), 13);
    assert_eq!(cpu.v(3), 17);
    assert_eq!(cpu.v(4), 19);
}

#[test]
fn draw_clips_at_screen_edges() {
    let mut cpu = set_up_cpu(&[0xD0, 0x12]);
    cpu.ram.write(0x300, &[0xFF, 0xFF]).unwrap();
    cpu.set_i_reg(0x300);
    cpu.set_v(0, 62);
    cpu.set_v(1, 31);

    cpu.tick().unwrap();

    // the bottom-right corner cells are drawn
    assert!(cpu.display()[31 * 64 + 62]);
    assert!(cpu.display()[31 * 64 + 63]);
    // no horizontal wrap to the row's first columns
    assert!(!cpu.display()[31 * 64]);
    assert!(!cpu.display()[31 * 64 + 1]);
    // no vertical wrap to the top row
    assert!(!cpu.display()[62]);
    assert!(!cpu.display()[63]);
    assert_eq!(cpu.v(0xF), 0);
    assert!(cpu.draw_flag);
}

#[test]
fn draw_zero_rows_only_sets_flags() {
    let mut cpu = set_up_cpu(&[0xD0, 0x10]);
    cpu.set_v(0xF, 1);

    cpu.tick().unwrap();

    assert!(cpu.display().iter().all(|px| *px == false));
    assert_eq!(cpu.v(0xF), 0);
    assert!(cpu.draw_flag);
}

#[test]
fn random_respects_mask() {
    let mut cpu = set_up_cpu(&[0xC5, 0x00, 0xC6, 0x0F]);
    cpu.set_v(5, 0x77);

    cpu.tick().unwrap();
    assert_eq!(cpu.v(5), 0);

    cpu.tick().unwrap();
    assert_eq!(cpu.v(6) & 0xF0, 0);
    assert_eq!(cpu.pc(), 0x204);
}

#[test]
fn unrecognized_opcode_is_noop() {
    let mut cpu = set_up_cpu(&[0x5A, 0xF1]);
    cpu.set_v(0xA, 9);

    cpu.tick().unwrap();

    assert_eq!(cpu.pc(), 0x202);
    assert_eq!(cpu.v(0xA), 9);
    assert_eq!(cpu.v(0xF), 0);
}

#[test]
fn key_wait_picks_lowest_pressed_key() {
    let mut cpu = set_up_cpu(&[0xF0, 0x0A]);
    cpu.key_press(0xE);
    cpu.key_press(0x3);

    cpu.tick().unwrap();

    assert_eq!(cpu.v(0x0), 0x3);
    assert_eq!(cpu.pc(), 0x202);
}

#[test]
fn return_on_empty_stack_is_stack_fault() {
    let mut cpu = set_up_cpu(&[0x00, 0xEE]);

    assert_eq!(cpu.tick(), Err(Fault::StackUnderflow));
}

#[test]
fn seventeenth_call_is_stack_fault() {
    let mut cpu = set_up_cpu(&[0x22, 0x00]);
    for _ in 0..16 {
        cpu.stack_push(0x222).unwrap();
    }

    assert_eq!(cpu.tick(), Err(Fault::StackOverflow));
    assert_eq!(cpu.stack_pop().unwrap(), 0x222);
}

#[test]
fn store_past_memory_end_is_bounds_fault() {
    let mut cpu = set_up_cpu(&[0xF1, 0x55]);
    cpu.set_i_reg(4095);

    assert_eq!(cpu.tick(), Err(Fault::OutOfBounds));
}

#[test]
fn fetch_past_memory_end_is_bounds_fault() {
    let mut cpu = set_up_cpu(&[0x1F, 0xFF]);

    cpu.tick().unwrap();
    assert_eq!(cpu.pc(), 0xFFF);

    assert_eq!(cpu.tick(), Err(Fault::OutOfBounds));
    assert_eq!(cpu.pc(), 0xFFF);
}

#[test]
fn oversized_program_is_rejected() {
    let mut cpu = Cpu::new();
    let image = vec![0xABu8; 4096];

    assert_eq!(cpu.load_program(&image), Err(Fault::OutOfBounds));
    // memory is untouched on failure
    assert_eq!(cpu.ram.read(0x200, 1).unwrap(), vec![0x00]);
}

#[test]
fn reset_restores_power_on_state() {
    let mut cpu = set_up_cpu(&[0x6B, 0x32]);
    cpu.tick().unwrap();
    cpu.set_i_reg(77);
    cpu.set_pixel(5, true);
    cpu.key_press(4);
    cpu.set_delay_timer(9);

    cpu.reset();

    assert_eq!(cpu.pc(), 0x200);
    assert_eq!(cpu.v(0xB), 0);
    assert_eq!(cpu.i_reg(), 0);
    assert_eq!(cpu.delay_timer(), 0);
    assert!(cpu.display().iter().all(|px| *px == false));
    assert!(cpu.draw_flag);
    // the program image was cleared, so the first step is a quiet no-op fetch
    assert_eq!(cpu.ram.read(0x200, 2).unwrap(), vec![0, 0]);
}

#[test]
fn timers_decrement_to_zero_and_stop() {
    let mut cpu = set_up_cpu(&[0xF0, 0x18]);
    cpu.set_v(0, 2);
    cpu.tick().unwrap();
    cpu.set_delay_timer(1);

    cpu.tick_timers();
    assert_eq!(cpu.delay_timer(), 0);
    assert_eq!(cpu.sound_timer(), 1);

    cpu.tick_timers();
    assert_eq!(cpu.delay_timer(), 0);
    assert_eq!(cpu.sound_timer(), 0);

    cpu.tick_timers();
    assert_eq!(cpu.sound_timer(), 0);
}

#[test]
fn new_machine_has_font_loaded() {
    let cpu = Cpu::new();

    assert_eq!(cpu.pc(), 0x200);
    assert!(cpu.draw_flag);
    assert_eq!(cpu.ram.read(0, 5).unwrap(), vec![0xF0, 0x90, 0x90, 0x90, 0xF0]);
    assert_eq!(cpu.ram.read(75, 5).unwrap(), vec![0xF0, 0x80, 0xF0, 0x80, 0x80]);
}

#[test]
fn sub_equal_operands_reports_no_borrow() {
    let mut cpu = set_up_cpu(&[0x80, 0x15]);
    cpu.set_v(0x0, 0x30);
    cpu.set_v(0x1, 0x30);

    cpu.tick().unwrap();

    assert_eq!(cpu.v(0x0), 0);
    assert_eq!(cpu.v(0xF), 1);
}

#[test]
fn subn_reports_borrow_flag() {
    let mut cpu = set_up_cpu(&[0x80, 0x17]);
    cpu.set_v(0x0, 0x06);
    cpu.set_v(0x1, 0x0A);

    cpu.tick().unwrap();

    assert_eq!(cpu.v(0x0), 0x04);
    assert_eq!(cpu.v(0xF), 1);
}

#[test]
fn add_immediate_wraps_without_flag() {
    let mut cpu = set_up_cpu(&[0x7A, 0xFF]);
    cpu.set_v(0xA, 2);
    cpu.set_v(0xF, 7);

    cpu.tick().unwrap();

    assert_eq!(cpu.v(0xA), 1);
    assert_eq!(cpu.v(0xF), 7);
}

#[test]
fn add_to_index_wraps_at_16_bits() {
    let mut cpu = set_up_cpu(&[0xF0, 0x1E]);
    cpu.set_i_reg(0xFFFF);
    cpu.set_v(0x0, 2);

    cpu.tick().unwrap();

    assert_eq!(cpu.i_reg(), 1);
}

#[test]
fn stack_pops_in_reverse_push_order() {
    let mut cpu = Cpu::new();
    cpu.stack_push(1).unwrap();
    cpu.stack_push(2).unwrap();
    cpu.stack_push(3).unwrap();

    assert_eq!(cpu.stack_pop().unwrap(), 3);
    assert_eq!(cpu.stack_pop().unwrap(), 2);
    assert_eq!(cpu.stack_pop().unwrap(), 1);
    assert_eq!(cpu.stack_pop(), Err(Fault::StackUnderflow));
}
