use chip8_core::{Emulator, Fault, SCREEN_HEIGHT, SCREEN_WIDTH};

fn program(words: &[u16]) -> Vec<u8> {
    let mut bytes = Vec::new();
    for w in words {
        bytes.push((w >> 8) as u8);
        bytes.push((w & 0xFF) as u8);
    }
    bytes
}

fn machine(words: &[u16]) -> Emulator {
    let mut emu = Emulator::new();
    emu.load(&program(words));
    emu
}

fn steps(emu: &mut Emulator, n: usize) {
    for _ in 0..n {
        emu.tick_with(0).unwrap();
    }
}

fn pixel(emu: &Emulator, x: usize, y: usize) -> bool {
    emu.get_display()[x + SCREEN_WIDTH * y]
}

#[test]
fn new_machine_holds_glyphs_and_starts_at_program() {
    let emu = Emulator::new();
    assert_eq!(emu.pc(), 0x200);
    assert_eq!(emu.memory(0), 0xF0);
    assert_eq!(emu.memory(5), 0x20);
    assert_eq!(emu.memory(79), 0x80);
    assert_eq!(emu.memory(80), 0);
    assert_eq!(emu.memory(0x200), 0);
    assert_eq!(emu.get_display().len(), SCREEN_WIDTH * SCREEN_HEIGHT);
    assert!(emu.get_display().iter().all(|p| !p));
    for r in 0..16 {
        assert_eq!(emu.register(r), 0);
    }
    assert_eq!(emu.index(), 0);
    assert_eq!(emu.stack_depth(), 0);
    assert_eq!(emu.delay_timer(), 0);
    assert_eq!(emu.sound_timer(), 0);
}

#[test]
fn load_copies_bytes_at_program_start() {
    let mut emu = Emulator::new();
    emu.load(&[1, 2, 3]);
    assert_eq!(emu.memory(0x1FF), 0);
    assert_eq!(emu.memory(0x200), 1);
    assert_eq!(emu.memory(0x201), 2);
    assert_eq!(emu.memory(0x202), 3);
    assert_eq!(emu.memory(0x203), 0);
    assert_eq!(emu.memory(0), 0xF0);
}

#[test]
fn load_of_largest_program_fills_memory() {
    let mut emu = Emulator::new();
    let data = vec![7u8; 4096 - 0x200];
    emu.load(&data);
    assert_eq!(emu.memory(0x200), 7);
    assert_eq!(emu.memory(4095), 7);
}

#[test]
fn reset_restores_initial_state() {
    let mut emu = machine(&[0x6A12, 0xA123, 0x6005, 0xF015, 0x00E0]);
    emu.keypress(3, true);
    steps(&mut emu, 4);
    emu.reset();
    assert_eq!(emu.pc(), 0x200);
    assert_eq!(emu.register(0xA), 0);
    assert_eq!(emu.index(), 0);
    assert_eq!(emu.delay_timer(), 0);
    assert_eq!(emu.memory(0x200), 0);
    assert_eq!(emu.memory(0), 0xF0);
}

#[test]
fn reset_then_load_replays_identically() {
    let prog = program(&[0x6003, 0x7005, 0xA000, 0xD015, 0xC0FF, 0x1200]);
    let mut a = Emulator::new();
    let mut b = Emulator::new();
    b.load(&[0xFF; 64]);
    b.keypress(4, true);
    b.reset();
    a.load(&prog);
    b.load(&prog);
    for k in 0..40u8 {
        a.tick_with(k.wrapping_mul(37)).unwrap();
        b.tick_with(k.wrapping_mul(37)).unwrap();
        if k % 7 == 0 {
            a.tick_timers();
            b.tick_timers();
        }
        assert_eq!(a.pc(), b.pc());
        for r in 0..16 {
            assert_eq!(a.register(r), b.register(r));
        }
        assert_eq!(a.get_display(), b.get_display());
    }
}

#[test]
fn add_sets_carry_on_overflow() {
    let mut emu = machine(&[0x60FF, 0x6101, 0x8014]);
    steps(&mut emu, 3);
    assert_eq!(emu.register(0), 0x00);
    assert_eq!(emu.register(0xF), 1);
}

#[test]
fn add_clears_carry_without_overflow() {
    let mut emu = machine(&[0x6001, 0x6101, 0x6F07, 0x8014]);
    steps(&mut emu, 4);
    assert_eq!(emu.register(0), 0x02);
    assert_eq!(emu.register(0xF), 0);
}

#[test]
fn sub_flag_is_zero_on_borrow() {
    let mut emu = machine(&[0x6001, 0x6102, 0x8015]);
    steps(&mut emu, 3);
    assert_eq!(emu.register(0), 0xFF);
    assert_eq!(emu.register(0xF), 0);
}

#[test]
fn sub_flag_is_one_without_borrow() {
    let mut emu = machine(&[0x6002, 0x6101, 0x8015]);
    steps(&mut emu, 3);
    assert_eq!(emu.register(0), 0x01);
    assert_eq!(emu.register(0xF), 1);
}

#[test]
fn reverse_sub_takes_x_from_y() {
    let mut emu = machine(&[0x6003, 0x610A, 0x8017]);
    steps(&mut emu, 3);
    assert_eq!(emu.register(0), 7);
    assert_eq!(emu.register(0xF), 1);
    let mut emu = machine(&[0x600A, 0x6103, 0x8017]);
    steps(&mut emu, 3);
    assert_eq!(emu.register(0), 0xF9);
    assert_eq!(emu.register(0xF), 0);
}

#[test]
fn shift_right_keeps_low_bit_in_flag() {
    let mut emu = machine(&[0x6003, 0x8006]);
    steps(&mut emu, 2);
    assert_eq!(emu.register(0), 0b0000_0001);
    assert_eq!(emu.register(0xF), 1);
}

#[test]
fn shift_left_keeps_high_bit_in_flag() {
    let mut emu = machine(&[0x6081, 0x800E]);
    steps(&mut emu, 2);
    assert_eq!(emu.register(0), 0b0000_0010);
    assert_eq!(emu.register(0xF), 1);
}

#[test]
fn logic_and_copy_operations() {
    let mut emu = machine(&[0x600C, 0x610A, 0x8201, 0x8012, 0x6306, 0x8313, 0x8410]);
    steps(&mut emu, 7);
    assert_eq!(emu.register(2), 0x0C);
    assert_eq!(emu.register(0), 0x08);
    assert_eq!(emu.register(3), 0x0C);
    assert_eq!(emu.register(4), 0x0A);
}

#[test]
fn add_immediate_wraps_without_flag() {
    let mut emu = machine(&[0x60F0, 0x6F05, 0x7020]);
    steps(&mut emu, 3);
    assert_eq!(emu.register(0), 0x10);
    assert_eq!(emu.register(0xF), 5);
}

#[test]
fn drawing_twice_erases_and_reports_collision() {
    let mut emu = machine(&[0x60FF, 0xA300, 0xF055, 0x6005, 0x6106, 0xD011, 0xD011]);
    steps(&mut emu, 6);
    assert_eq!(emu.register(0xF), 0);
    for c in 0..8 {
        assert!(pixel(&emu, 5 + c, 6));
    }
    assert!(!pixel(&emu, 4, 6));
    assert!(!pixel(&emu, 13, 6));
    steps(&mut emu, 1);
    assert_eq!(emu.register(0xF), 1);
    assert!(emu.get_display().iter().all(|p| !p));
}

#[test]
fn drawing_wraps_around_screen_edges() {
    let mut emu = machine(&[0x60C0, 0xA300, 0xF055, 0x603F, 0x611F, 0xD012]);
    steps(&mut emu, 6);
    // rows 31 and 0 (wrapped), columns 63 and 0 (wrapped); the second sprite row is zero
    assert!(pixel(&emu, 63, 31));
    assert!(pixel(&emu, 0, 31));
    assert!(!pixel(&emu, 1, 31));
    assert!(!pixel(&emu, 63, 0));
    assert_eq!(emu.get_display().iter().filter(|p| **p).count(), 2);
}

#[test]
fn draw_glyph_from_font() {
    let mut emu = machine(&[0x6001, 0xF029, 0x6200, 0xD225]);
    steps(&mut emu, 4);
    assert_eq!(emu.index(), 5);
    // glyph of 1: 0x20 0x60 0x20 0x20 0x70
    assert!(pixel(&emu, 2, 0));
    assert!(!pixel(&emu, 1, 0));
    assert!(pixel(&emu, 1, 1) && pixel(&emu, 2, 1));
    assert!(pixel(&emu, 1, 4) && pixel(&emu, 2, 4) && pixel(&emu, 3, 4));
    assert_eq!(emu.register(0xF), 0);
}

#[test]
fn clear_screen_turns_all_pixels_off() {
    let mut emu = machine(&[0xA000, 0xD005, 0x00E0]);
    steps(&mut emu, 2);
    assert!(emu.get_display().iter().any(|p| *p));
    steps(&mut emu, 1);
    assert!(emu.get_display().iter().all(|p| !p));
}

#[test]
fn bcd_stores_decimal_digits() {
    let mut emu = machine(&[0x609D, 0xA300, 0xF033]);
    steps(&mut emu, 3);
    assert_eq!(emu.register(0), 157);
    assert_eq!(emu.memory(0x300), 1);
    assert_eq!(emu.memory(0x301), 5);
    assert_eq!(emu.memory(0x302), 7);
}

#[test]
fn bcd_past_memory_end_faults() {
    let mut emu = machine(&[0x609D, 0xAFFE, 0xF033]);
    steps(&mut emu, 2);
    assert_eq!(emu.tick_with(0), Err(Fault::AddressOutOfRange));
    assert_eq!(emu.pc(), 0x204);
}

#[test]
fn key_wait_retries_until_key_pressed() {
    let mut emu = machine(&[0x6507, 0xF50A, 0x6001]);
    steps(&mut emu, 1);
    for _ in 0..5 {
        steps(&mut emu, 1);
        assert_eq!(emu.pc(), 0x202);
        assert_eq!(emu.register(5), 7);
    }
    emu.keypress(9, true);
    emu.keypress(0xC, true);
    steps(&mut emu, 1);
    assert_eq!(emu.pc(), 0x204);
    assert_eq!(emu.register(5), 9);
}

#[test]
fn key_release_is_recorded() {
    let mut emu = machine(&[0x6004, 0xE09E, 0x6101, 0x6202]);
    emu.keypress(4, true);
    emu.keypress(4, false);
    steps(&mut emu, 3);
    assert_eq!(emu.pc(), 0x206);
    assert_eq!(emu.register(1), 1);
}

#[test]
fn key_skips_follow_keypad() {
    let mut emu = machine(&[0x6004, 0xE09E, 0x6101, 0xE0A1, 0x6202]);
    emu.keypress(4, true);
    steps(&mut emu, 4);
    assert_eq!(emu.register(1), 0);
    assert_eq!(emu.register(2), 2);
    let mut emu = machine(&[0x6004, 0xE0A1, 0x6101, 0x6202]);
    steps(&mut emu, 2);
    assert_eq!(emu.pc(), 0x206);
}

#[test]
fn key_test_on_missing_key_faults() {
    let mut emu = machine(&[0x6014, 0xE09E]);
    steps(&mut emu, 1);
    assert_eq!(emu.tick_with(0), Err(Fault::KeyOutOfRange(20)));
    assert_eq!(emu.pc(), 0x202);
}

#[test]
fn timers_stop_at_zero() {
    let mut emu = Emulator::new();
    emu.tick_timers();
    assert_eq!(emu.delay_timer(), 0);
    assert_eq!(emu.sound_timer(), 0);
}

#[test]
fn timers_count_down_independently() {
    let mut emu = machine(&[0x6002, 0xF015, 0x6101, 0xF118, 0xF207]);
    steps(&mut emu, 4);
    assert_eq!(emu.delay_timer(), 2);
    assert_eq!(emu.sound_timer(), 1);
    emu.tick_timers();
    assert_eq!(emu.delay_timer(), 1);
    assert_eq!(emu.sound_timer(), 0);
    emu.tick_timers();
    emu.tick_timers();
    assert_eq!(emu.delay_timer(), 0);
    assert_eq!(emu.sound_timer(), 0);
    steps(&mut emu, 1);
    assert_eq!(emu.register(2), 0);
}

#[test]
fn call_then_return_resumes_after_call() {
    // 0x200: call 0x206; 0x202: V1 := 1; 0x204: jump 0x204; 0x206: return
    let mut emu = machine(&[0x2206, 0x6101, 0x1204, 0x00EE]);
    steps(&mut emu, 1);
    assert_eq!(emu.pc(), 0x206);
    assert_eq!(emu.stack_depth(), 1);
    steps(&mut emu, 1);
    assert_eq!(emu.pc(), 0x202);
    assert_eq!(emu.stack_depth(), 0);
    steps(&mut emu, 1);
    assert_eq!(emu.register(1), 1);
}

#[test]
fn sixteen_nested_calls_unwind() {
    // 0x200: call 0x300; 0x202: jump to itself.
    // Subroutine k at 0x300 + 4k calls subroutine k + 1, then returns;
    // subroutine 15 returns at once, at the sixteenth level.
    let mut words = vec![0u16; 0xA0];
    words[0] = 0x2300;
    words[1] = 0x1202;
    for k in 0..15u16 {
        let at = (0x100 + 4 * k as usize) / 2;
        words[at] = 0x2000 | (0x304 + 4 * k);
        words[at + 1] = 0x00EE;
    }
    words[(0x100 + 4 * 15) / 2] = 0x00EE;
    let mut emu = machine(&words);
    steps(&mut emu, 16);
    assert_eq!(emu.stack_depth(), 16);
    assert_eq!(emu.pc(), 0x33C);
    for level in (0..16u16).rev() {
        steps(&mut emu, 1);
        assert_eq!(emu.stack_depth(), level);
        if level > 0 {
            assert_eq!(emu.pc(), 0x300 + 4 * (level - 1) + 2);
        } else {
            assert_eq!(emu.pc(), 0x202);
        }
    }
}

#[test]
fn seventeenth_call_overflows_stack() {
    let mut emu = machine(&[0x2200]);
    steps(&mut emu, 16);
    assert_eq!(emu.stack_depth(), 16);
    assert_eq!(emu.tick_with(0), Err(Fault::StackOverflow));
    assert_eq!(emu.stack_depth(), 16);
    assert_eq!(emu.pc(), 0x200);
}

#[test]
fn return_with_empty_stack_underflows() {
    let mut emu = machine(&[0x00EE]);
    assert_eq!(emu.tick_with(0), Err(Fault::StackUnderflow));
    assert_eq!(emu.pc(), 0x200);
}

#[test]
fn skips_compare_register_and_constant() {
    let mut emu = machine(&[0x6005, 0x3005, 0x6101, 0x4005, 0x6202, 0x6305]);
    steps(&mut emu, 5);
    assert_eq!(emu.register(1), 0);
    assert_eq!(emu.register(2), 2);
    assert_eq!(emu.register(3), 5);
    let mut emu = machine(&[0x6005, 0x6305, 0x5030, 0x6101, 0x9030, 0x6202]);
    steps(&mut emu, 5);
    assert_eq!(emu.register(1), 0);
    assert_eq!(emu.register(2), 2);
}

#[test]
fn jumps_set_program_counter() {
    let mut emu = machine(&[0x1ABC]);
    steps(&mut emu, 1);
    assert_eq!(emu.pc(), 0xABC);
    let mut emu = machine(&[0x6010, 0xB300]);
    steps(&mut emu, 2);
    assert_eq!(emu.pc(), 0x310);
}

#[test]
fn index_operations() {
    let mut emu = machine(&[0xAFFF, 0x6002, 0xF01E]);
    steps(&mut emu, 3);
    assert_eq!(emu.index(), 0x1001);
    let mut emu = machine(&[0x600F, 0xF029]);
    steps(&mut emu, 2);
    assert_eq!(emu.index(), 75);
}

#[test]
fn store_and_load_registers() {
    let mut emu = machine(&[0x6011, 0x6122, 0x6233, 0xA300, 0xF155, 0x6000, 0x6100, 0x6200, 0xF265]);
    steps(&mut emu, 5);
    assert_eq!(emu.memory(0x300), 0x11);
    assert_eq!(emu.memory(0x301), 0x22);
    assert_eq!(emu.memory(0x302), 0);
    steps(&mut emu, 4);
    assert_eq!(emu.register(0), 0x11);
    assert_eq!(emu.register(1), 0x22);
    assert_eq!(emu.register(2), 0);
}

#[test]
fn store_past_memory_end_faults() {
    let mut emu = machine(&[0xAFFE, 0xF255]);
    steps(&mut emu, 1);
    assert_eq!(emu.tick_with(0), Err(Fault::AddressOutOfRange));
}

#[test]
fn random_byte_is_masked() {
    let mut emu = machine(&[0xC30F]);
    emu.tick_with(0xAB).unwrap();
    assert_eq!(emu.register(3), 0x0B);
    for _ in 0..200 {
        let mut emu = machine(&[0xC3A5]);
        emu.tick().unwrap();
        assert_eq!(emu.register(3) & !0xA5, 0);
    }
}

#[test]
fn unknown_instruction_faults_with_word() {
    let mut emu = machine(&[0x5121]);
    assert_eq!(emu.tick_with(0), Err(Fault::UnknownInstruction(0x5121)));
    assert_eq!(emu.pc(), 0x200);
    let mut emu = machine(&[0xF0FF]);
    assert_eq!(emu.tick(), Err(Fault::UnknownInstruction(0xF0FF)));
    let mut emu = machine(&[0x800F]);
    assert_eq!(emu.tick(), Err(Fault::UnknownInstruction(0x800F)));
}

#[test]
fn fetch_past_memory_end_faults() {
    let mut emu = machine(&[0x1FFF]);
    steps(&mut emu, 1);
    assert_eq!(emu.tick_with(0), Err(Fault::AddressOutOfRange));
    assert_eq!(emu.pc(), 0xFFF);
}

#[test]
fn no_operation_only_advances() {
    let mut emu = Emulator::new();
    steps(&mut emu, 1);
    assert_eq!(emu.pc(), 0x202);
}
