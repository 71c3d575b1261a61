use chip8::{Chip8, CycleReport};

fn boot(rom: &[u8]) -> Chip8 {
    let mut c = Chip8::new();
    c.load_game(rom);
    c
}

fn cycle(c: &mut Chip8) -> CycleReport {
    assert!(c.cycle_is_defined());
    c.emulate_cycle_with(0)
}

fn run(c: &mut Chip8, cycles: usize) {
    for _ in 0..cycles {
        cycle(c);
    }
}

#[test]
fn power_on_state() {
    let c = Chip8::new();
    assert_eq!(c.pc(), 0x200);
    assert_eq!(c.index(), 0);
    assert_eq!(c.sp(), 0);
    assert_eq!(c.opcode(), 0);
    assert_eq!(c.delay_timer(), 0);
    assert_eq!(c.sound_timer(), 0);
    assert!(c.draw_flag);
    for r in 0..16 {
        assert_eq!(c.register(r), 0);
        assert_eq!(c.key_state(r), 0);
        assert_eq!(c.stack_at(r), 0);
    }
    // glyph "0" and glyph "F"
    assert_eq!(
        [c.memory_at(0), c.memory_at(1), c.memory_at(2), c.memory_at(3), c.memory_at(4)],
        [0xF0, 0x90, 0x90, 0x90, 0xF0]
    );
    assert_eq!(
        [c.memory_at(75), c.memory_at(76), c.memory_at(77), c.memory_at(78), c.memory_at(79)],
        [0xF0, 0x80, 0xF0, 0x80, 0x80]
    );
    for a in 80..4096 {
        assert_eq!(c.memory_at(a), 0);
    }
    assert!(c.gfx.iter().all(|&p| p == 0));
}

#[test]
fn load_game_places_program_at_0x200() {
    let c = boot(&[0x12, 0x34, 0x56]);
    assert_eq!(c.memory_at(0x1FF), 0);
    assert_eq!(c.memory_at(0x200), 0x12);
    assert_eq!(c.memory_at(0x201), 0x34);
    assert_eq!(c.memory_at(0x202), 0x56);
    assert_eq!(c.memory_at(0x203), 0);
    assert_eq!(c.memory_at(0), 0xF0);
    assert_eq!(c.pc(), 0x200);
}

#[test]
fn load_game_fills_all_of_memory() {
    let rom: Vec<u8> = (0..3584).map(|k| (k % 251) as u8).collect();
    let c = boot(&rom);
    assert_eq!(c.memory_at(0x200), 0);
    assert_eq!(c.memory_at(4095), (3583 % 251) as u8);
}

#[test]
fn set_register_6xnn_and_report() {
    let mut c = boot(&[0x6A, 0x2B]);
    let r = cycle(&mut c);
    assert_eq!(r, CycleReport { opcode: 0x6A2B, known: true, beep: false });
    assert_eq!(c.register(0xA), 0x2B);
    assert_eq!(c.pc(), 0x202);
    assert_eq!(c.opcode(), 0x6A2B);
}

#[test]
fn add_7xnn_wraps_without_carry_flag() {
    let mut c = boot(&[0x60, 0xF0, 0x70, 0x20]);
    run(&mut c, 2);
    assert_eq!(c.register(0), 0x10);
    assert_eq!(c.register(0xF), 0);
}

#[test]
fn jump_1nnn() {
    let mut c = boot(&[0x13, 0x45]);
    cycle(&mut c);
    assert_eq!(c.pc(), 0x345);
}

#[test]
fn call_2nnn_and_return_00ee() {
    // 0x200: call 0x300; 0x300: return
    let mut rom = vec![0u8; 0x102];
    rom[0] = 0x23;
    rom[1] = 0x00;
    rom[0x100] = 0x00;
    rom[0x101] = 0xEE;
    let mut c = boot(&rom);
    cycle(&mut c);
    assert_eq!(c.pc(), 0x300);
    assert_eq!(c.sp(), 1);
    assert_eq!(c.stack_at(0), 0x200);
    cycle(&mut c);
    assert_eq!(c.pc(), 0x202);
    assert_eq!(c.sp(), 0);
}

#[test]
fn skips_3xnn_4xnn() {
    let mut c = boot(&[0x61, 0x07, 0x31, 0x07]);
    run(&mut c, 2);
    assert_eq!(c.pc(), 0x206);
    let mut c = boot(&[0x61, 0x07, 0x31, 0x08]);
    run(&mut c, 2);
    assert_eq!(c.pc(), 0x204);
    let mut c = boot(&[0x61, 0x07, 0x41, 0x08]);
    run(&mut c, 2);
    assert_eq!(c.pc(), 0x206);
    let mut c = boot(&[0x61, 0x07, 0x41, 0x07]);
    run(&mut c, 2);
    assert_eq!(c.pc(), 0x204);
}

#[test]
fn skips_5xy0_9xy0() {
    let mut c = boot(&[0x61, 0x07, 0x62, 0x07, 0x51, 0x20]);
    run(&mut c, 3);
    assert_eq!(c.pc(), 0x208);
    let mut c = boot(&[0x61, 0x07, 0x62, 0x07, 0x91, 0x20]);
    run(&mut c, 3);
    assert_eq!(c.pc(), 0x206);
    let mut c = boot(&[0x61, 0x07, 0x62, 0x08, 0x91, 0x20]);
    run(&mut c, 3);
    assert_eq!(c.pc(), 0x208);
}

#[test]
fn logic_8xy0_to_8xy3() {
    let mut c = boot(&[0x61, 0b1100, 0x62, 0b1010, 0x81, 0x21]);
    run(&mut c, 3);
    assert_eq!(c.register(1), 0b1110);
    let mut c = boot(&[0x61, 0b1100, 0x62, 0b1010, 0x81, 0x22]);
    run(&mut c, 3);
    assert_eq!(c.register(1), 0b1000);
    let mut c = boot(&[0x61, 0b1100, 0x62, 0b1010, 0x81, 0x23]);
    run(&mut c, 3);
    assert_eq!(c.register(1), 0b0110);
    let mut c = boot(&[0x61, 0b1100, 0x62, 0b1010, 0x81, 0x20]);
    run(&mut c, 3);
    assert_eq!(c.register(1), 0b1010);
    assert_eq!(c.pc(), 0x206);
}

#[test]
fn add_8xy4_sets_carry() {
    let mut c = boot(&[0x61, 0xF0, 0x62, 0x20, 0x81, 0x24]);
    run(&mut c, 3);
    assert_eq!(c.register(1), 0x10);
    assert_eq!(c.register(0xF), 1);
    let mut c = boot(&[0x61, 0x10, 0x62, 0x20, 0x81, 0x24]);
    run(&mut c, 3);
    assert_eq!(c.register(1), 0x30);
    assert_eq!(c.register(0xF), 0);
    // exactly 255: no carry
    let mut c = boot(&[0x61, 0xF0, 0x62, 0x0F, 0x81, 0x24]);
    run(&mut c, 3);
    assert_eq!(c.register(1), 0xFF);
    assert_eq!(c.register(0xF), 0);
}

#[test]
fn add_8xy4_into_vf_ends_with_the_carry() {
    // VF = 0xF0, V2 = 0x20: the sum 0x110 carries, and VF is written last
    let mut c = boot(&[0x6F, 0xF0, 0x62, 0x20, 0x8F, 0x24]);
    run(&mut c, 3);
    assert_eq!(c.register(0xF), 1);
    let mut c = boot(&[0x6F, 0x10, 0x62, 0x20, 0x8F, 0x24]);
    run(&mut c, 3);
    assert_eq!(c.register(0xF), 0);
}

#[test]
fn add_8xy4_from_vf_adds_the_old_vf() {
    // V1 = 3, VF = 5: V1 += VF gives 8, no carry
    let mut c = boot(&[0x61, 0x03, 0x6F, 0x05, 0x81, 0xF4]);
    run(&mut c, 3);
    assert_eq!(c.register(1), 8);
    assert_eq!(c.register(0xF), 0);
    // V1 = 0xFE, VF = 5: wraps to 3, carry
    let mut c = boot(&[0x61, 0xFE, 0x6F, 0x05, 0x81, 0xF4]);
    run(&mut c, 3);
    assert_eq!(c.register(1), 3);
    assert_eq!(c.register(0xF), 1);
}

#[test]
fn shifts_of_vf_end_with_the_shifted_out_bit() {
    let mut c = boot(&[0x6F, 0x85, 0x8F, 0x06]);
    run(&mut c, 2);
    assert_eq!(c.register(0xF), 1);
    let mut c = boot(&[0x6F, 0x84, 0x8F, 0x06]);
    run(&mut c, 2);
    assert_eq!(c.register(0xF), 0);
    let mut c = boot(&[0x6F, 0x85, 0x8F, 0x0E]);
    run(&mut c, 2);
    assert_eq!(c.register(0xF), 1);
    let mut c = boot(&[0x6F, 0x45, 0x8F, 0x0E]);
    run(&mut c, 2);
    assert_eq!(c.register(0xF), 0);
}

#[test]
fn sub_8xy5_and_8xy7_borrow() {
    let mut c = boot(&[0x61, 0x30, 0x62, 0x10, 0x81, 0x25]);
    run(&mut c, 3);
    assert_eq!(c.register(1), 0x20);
    assert_eq!(c.register(0xF), 1);
    let mut c = boot(&[0x61, 0x10, 0x62, 0x30, 0x81, 0x25]);
    run(&mut c, 3);
    assert_eq!(c.register(1), 0xE0);
    assert_eq!(c.register(0xF), 0);
    let mut c = boot(&[0x61, 0x10, 0x62, 0x30, 0x81, 0x27]);
    run(&mut c, 3);
    assert_eq!(c.register(1), 0x20);
    assert_eq!(c.register(0xF), 1);
    let mut c = boot(&[0x61, 0x30, 0x62, 0x10, 0x81, 0x27]);
    run(&mut c, 3);
    assert_eq!(c.register(1), 0xE0);
    assert_eq!(c.register(0xF), 0);
    // equal operands: no borrow either way
    let mut c = boot(&[0x61, 0x30, 0x62, 0x30, 0x81, 0x25]);
    run(&mut c, 3);
    assert_eq!(c.register(1), 0);
    assert_eq!(c.register(0xF), 1);
}

#[test]
fn shifts_8xy6_8xye() {
    let mut c = boot(&[0x61, 0x85, 0x81, 0x06]);
    run(&mut c, 2);
    assert_eq!(c.register(1), 0x42);
    assert_eq!(c.register(0xF), 1);
    let mut c = boot(&[0x61, 0x84, 0x81, 0x06]);
    run(&mut c, 2);
    assert_eq!(c.register(1), 0x42);
    assert_eq!(c.register(0xF), 0);
    let mut c = boot(&[0x61, 0x85, 0x81, 0x0E]);
    run(&mut c, 2);
    assert_eq!(c.register(1), 0x0A);
    assert_eq!(c.register(0xF), 1);
    let mut c = boot(&[0x61, 0x45, 0x81, 0x0E]);
    run(&mut c, 2);
    assert_eq!(c.register(1), 0x8A);
    assert_eq!(c.register(0xF), 0);
}

#[test]
fn index_annn_and_jump_bnnn() {
    let mut c = boot(&[0xA1, 0x23]);
    cycle(&mut c);
    assert_eq!(c.index(), 0x123);
    let mut c = boot(&[0x60, 0x10, 0xB3, 0x00]);
    run(&mut c, 2);
    assert_eq!(c.pc(), 0x310);
}

#[test]
fn random_cxnn_is_masked() {
    let mut c = boot(&[0xC3, 0x0F]);
    assert!(c.cycle_is_defined());
    c.emulate_cycle_with(0xAB);
    assert_eq!(c.register(3), 0x0B);
    assert_eq!(c.pc(), 0x202);
    // a mask of zero gives zero whatever comes from the generator
    let mut c = boot(&[0x63, 0x77, 0xC3, 0x00]);
    run(&mut c, 1);
    assert!(c.cycle_is_defined());
    assert!(c.emulate_cycle().is_ok());
    assert_eq!(c.register(3), 0);
    // the generator's byte never leaves the mask
    for _ in 0..50 {
        let mut c = boot(&[0xC5, 0x3C]);
        let r = c.emulate_cycle().unwrap();
        assert_eq!(r, CycleReport { opcode: 0xC53C, known: true, beep: false });
        assert_eq!(c.register(5) & !0x3C, 0);
        assert_eq!(c.pc(), 0x202);
    }
}

#[test]
fn draw_dxyn_font_glyph() {
    // V0 = 0, I = glyph of V0 ("0"), draw 5 rows at (V0, V0)
    let mut c = boot(&[0x60, 0x00, 0xF0, 0x29, 0xD0, 0x05]);
    run(&mut c, 3);
    assert_eq!(&c.gfx[0..8], &[1, 1, 1, 1, 0, 0, 0, 0]);
    assert_eq!(&c.gfx[64..72], &[1, 0, 0, 1, 0, 0, 0, 0]);
    assert_eq!(&c.gfx[256..264], &[1, 1, 1, 1, 0, 0, 0, 0]);
    assert_eq!(c.gfx.iter().filter(|&&p| p == 1).count(), 14);
    assert_eq!(c.register(0xF), 0);
    assert!(c.draw_flag);
    assert!(c.draw_flag());
    assert_eq!(c.pc(), 0x206);
}

#[test]
fn draw_twice_restores_screen_and_reports_collision() {
    let mut c = boot(&[0x60, 0x05, 0x61, 0x03, 0xA0, 0x0A, 0xD0, 0x15, 0xD0, 0x15]);
    run(&mut c, 4);
    let once: Vec<u8> = c.gfx.to_vec();
    assert_eq!(c.register(0xF), 0);
    // glyph "2" at (5, 3): first row 0xF0
    assert_eq!(&once[3 * 64 + 5..3 * 64 + 9], &[1, 1, 1, 1]);
    cycle(&mut c);
    assert!(c.gfx.iter().all(|&p| p == 0));
    assert_eq!(c.register(0xF), 1);
}

#[test]
fn draw_past_the_right_edge_continues_on_the_next_row() {
    // glyph "0" at x = 62, y = 0: columns 62, 63 on row 0, then 64, 65 = row 1 columns 0, 1
    let mut c = boot(&[0x60, 0x3E, 0x61, 0x00, 0xA0, 0x00, 0xD0, 0x11]);
    run(&mut c, 4);
    assert_eq!(c.gfx[62], 1);
    assert_eq!(c.gfx[63], 1);
    assert_eq!(c.gfx[64], 1);
    assert_eq!(c.gfx[65], 1);
    assert_eq!(c.gfx[66], 0);
    assert_eq!(c.pixel(65), 1);
    assert_eq!(c.pixel(66), 0);
}

#[test]
fn clear_00e0() {
    let mut c = boot(&[0xA0, 0x00, 0xD0, 0x05, 0x00, 0xE0]);
    run(&mut c, 2);
    assert!(c.gfx.iter().any(|&p| p == 1));
    c.draw_flag = false;
    cycle(&mut c);
    assert!(c.gfx.iter().all(|&p| p == 0));
    assert!(c.draw_flag);
    assert_eq!(c.pc(), 0x206);
}

#[test]
fn keys_ex9e_exa1_with_no_key_pressed() {
    let mut c = boot(&[0x63, 0x05, 0xE3, 0x9E]);
    run(&mut c, 2);
    assert_eq!(c.pc(), 0x204);
    let mut c = boot(&[0x63, 0x05, 0xE3, 0xA1]);
    run(&mut c, 2);
    assert_eq!(c.pc(), 0x206);
}

#[test]
fn wait_for_key_fx0a_stands_still() {
    let mut c = boot(&[0x60, 0x09, 0xF0, 0x15, 0xF1, 0x0A]);
    run(&mut c, 2);
    assert_eq!(c.delay_timer(), 8);
    let r = cycle(&mut c);
    assert_eq!(r.opcode, 0xF10A);
    assert!(!r.beep);
    assert_eq!(c.pc(), 0x204);
    assert_eq!(c.delay_timer(), 8);
    cycle(&mut c);
    assert_eq!(c.pc(), 0x204);
    assert_eq!(c.delay_timer(), 8);
}

#[test]
fn timers_fx07_fx15_fx18_and_beep() {
    // V0 = 3, delay = 3 (ticks to 2), V1 = delay (2, then ticks to 1)
    let mut c = boot(&[0x60, 0x03, 0xF0, 0x15, 0xF1, 0x07]);
    run(&mut c, 2);
    assert_eq!(c.delay_timer(), 2);
    cycle(&mut c);
    assert_eq!(c.register(1), 2);
    assert_eq!(c.delay_timer(), 1);
    // sound timer set to 2: ticks to 1, then the next cycle beeps and it reaches 0
    let mut c = boot(&[0x60, 0x02, 0xF0, 0x18, 0x00, 0x01, 0x00, 0x01]);
    run(&mut c, 2);
    assert_eq!(c.sound_timer(), 1);
    let r = cycle(&mut c);
    assert!(r.beep);
    assert!(!r.known);
    assert_eq!(c.sound_timer(), 0);
    let r = cycle(&mut c);
    assert!(!r.beep);
}

#[test]
fn sound_timer_of_one_beeps_at_once() {
    let mut c = boot(&[0x60, 0x01, 0xF0, 0x18]);
    cycle(&mut c);
    let r = cycle(&mut c);
    assert!(r.beep);
    assert_eq!(c.sound_timer(), 0);
}

#[test]
fn index_fx1e_wraps_and_fx29_points_at_glyph() {
    let mut c = boot(&[0xAF, 0xFF, 0x60, 0x10, 0xF0, 0x1E]);
    run(&mut c, 3);
    assert_eq!(c.index(), 0x100F);
    let mut c = boot(&[0x60, 0x0A, 0xF0, 0x29]);
    run(&mut c, 2);
    assert_eq!(c.index(), 50);
    assert_eq!(c.memory_at(50), 0xF0);
    assert_eq!(c.memory_at(51), 0x90);
    // 8-bit product wraps: 0x40 * 5 = 0x140
    let mut c = boot(&[0x60, 0x40, 0xF0, 0x29]);
    run(&mut c, 2);
    assert_eq!(c.index(), 0x40);
}

#[test]
fn bcd_fx33() {
    let mut c = boot(&[0x60, 234, 0xA3, 0x00, 0xF0, 0x33]);
    run(&mut c, 3);
    assert_eq!([c.memory_at(0x300), c.memory_at(0x301), c.memory_at(0x302)], [2, 3, 4]);
    let mut c = boot(&[0x60, 7, 0xA3, 0x00, 0xF0, 0x33]);
    run(&mut c, 3);
    assert_eq!([c.memory_at(0x300), c.memory_at(0x301), c.memory_at(0x302)], [0, 0, 7]);
}

#[test]
fn store_fx55_then_load_fx65_round_trip() {
    let mut c = boot(&[
        0x60, 0x11, 0x61, 0x22, 0x62, 0x33, 0x63, 0x44, 0xA3, 0x00, 0xF2, 0x55, 0x60, 0x00, 0x61,
        0x00, 0x62, 0x00, 0x63, 0x55, 0xF2, 0x65,
    ]);
    run(&mut c, 6);
    assert_eq!(
        [c.memory_at(0x300), c.memory_at(0x301), c.memory_at(0x302), c.memory_at(0x303)],
        [0x11, 0x22, 0x33, 0]
    );
    assert_eq!(c.index(), 0x300);
    run(&mut c, 5);
    assert_eq!([c.register(0), c.register(1), c.register(2), c.register(3)], [0x11, 0x22, 0x33, 0x55]);
}

#[test]
fn unknown_opcode_only_ticks_timers() {
    let mut c = boot(&[0x60, 0x05, 0xF0, 0x15, 0x81, 0x2F]);
    run(&mut c, 2);
    let r = cycle(&mut c);
    assert_eq!(r, CycleReport { opcode: 0x812F, known: false, beep: false });
    assert_eq!(c.pc(), 0x204);
    assert_eq!(c.delay_timer(), 3);
    for op in [[0x01u8, 0x23], [0xE1, 0x00], [0xF1, 0x00]] {
        let mut c = boot(&op);
        let r = cycle(&mut c);
        assert!(!r.known);
        assert_eq!(c.pc(), 0x200);
    }
}

#[test]
fn undefined_cycles_are_detected() {
    // return with an empty stack
    let c = boot(&[0x00, 0xEE]);
    assert!(!c.cycle_is_defined());
    // a seventeenth nested call
    let mut c = boot(&[0x22, 0x00]);
    for _ in 0..16 {
        cycle(&mut c);
    }
    assert_eq!(c.sp(), 16);
    assert!(!c.cycle_is_defined());
    // a sprite whose last row falls off the bottom of the screen
    let mut c = boot(&[0x60, 0x3E, 0x61, 0x1F, 0xA0, 0x00, 0xD0, 0x11]);
    run(&mut c, 3);
    assert!(!c.cycle_is_defined());
    // the same sprite one row up fits
    let mut c = boot(&[0x60, 0x3E, 0x61, 0x1E, 0xA0, 0x00, 0xD0, 0x11]);
    run(&mut c, 4);
    // a key index beyond the keypad
    let mut c = boot(&[0x60, 0x10, 0xE0, 0x9E]);
    run(&mut c, 1);
    assert!(!c.cycle_is_defined());
    // BCD past the end of memory
    let mut c = boot(&[0xAF, 0xFE, 0xF0, 0x33]);
    run(&mut c, 1);
    assert!(!c.cycle_is_defined());
    // register store past the end of memory
    let mut c = boot(&[0xAF, 0xF8, 0xFF, 0x55]);
    run(&mut c, 1);
    assert!(!c.cycle_is_defined());
    let mut c = boot(&[0xAF, 0xF0, 0xFF, 0x65]);
    run(&mut c, 2);
    // a program counter at the last byte of memory
    let mut c = boot(&[0x1F, 0xFF]);
    run(&mut c, 1);
    assert!(!c.cycle_is_defined());
}

#[test]
fn set_keys_changes_nothing() {
    let c = boot(&[0x60, 0x01]);
    c.set_keys();
    assert_eq!(c.pc(), 0x200);
    assert_eq!(c.key_state(0), 0);
}

#[test]
fn only_cxnn_depends_on_the_random_byte() {
    let rom = [0x60, 0x02, 0x70, 0x03, 0xA2, 0x00, 0xD0, 0x03, 0xC1, 0xFF];
    let mut a = boot(&rom);
    let mut b = boot(&rom);
    for _ in 0..4 {
        assert!(a.cycle_is_defined() && b.cycle_is_defined());
        a.emulate_cycle_with(0x00);
        b.emulate_cycle_with(0xFF);
    }
    assert_eq!(a.register(0), 5);
    assert!(a.gfx.iter().any(|&p| p == 1));
    assert_eq!(a.register(0), b.register(0));
    assert_eq!(a.register(0xF), b.register(0xF));
    assert_eq!(a.pc(), b.pc());
    assert_eq!(a.gfx.to_vec(), b.gfx.to_vec());
    a.emulate_cycle_with(0x00);
    b.emulate_cycle_with(0xFF);
    assert_eq!(a.register(1), 0x00);
    assert_eq!(b.register(1), 0xFF);
}

#[test]
fn pixels_stay_off_or_on() {
    // draw overlapping glyphs several times
    let mut c = boot(&[0x60, 0x01, 0x61, 0x02, 0xA0, 0x00, 0xD0, 0x15, 0xA0, 0x05, 0xD0, 0x15, 0xD1, 0x05]);
    run(&mut c, 7);
    assert!(c.gfx.iter().all(|&p| p <= 1));
    assert_eq!(c.register(0xF), 1);
}

#[test]
fn screen_with_other_bytes_runs_on() {
    // a caller may write any byte into the public screen; drawing still flips the low bit
    let mut c = boot(&[0xA0, 0x00, 0xD0, 0x01]);
    c.gfx[0] = 7;
    c.gfx[4] = 9;
    run(&mut c, 2);
    assert_eq!(c.gfx[0], 6);
    assert_eq!(c.gfx[1], 1);
    assert_eq!(c.gfx[4], 9);
    assert_eq!(c.register(0xF), 0);
}

#[test]
fn emulate_cycle_without_cxnn_always_succeeds() {
    let mut c = boot(&[0x6A, 0x2B, 0x7A, 0x01]);
    assert_eq!(
        c.emulate_cycle(),
        Ok(CycleReport { opcode: 0x6A2B, known: true, beep: false })
    );
    assert_eq!(
        c.emulate_cycle(),
        Ok(CycleReport { opcode: 0x7A01, known: true, beep: false })
    );
    assert_eq!(c.register(0xA), 0x2C);
    assert_eq!(c.pc(), 0x204);
}
