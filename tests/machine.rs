use chip8::{decode, Chip8, Chip8Error, Operation, Quirks};

fn machine_with(program: &[u8]) -> Chip8 {
    let mut c = Chip8::new();
    c.load_rom(program).unwrap();
    c
}

fn run(c: &mut Chip8, words: &[u16]) {
    for w in words {
        c.execute_with(*w, 0).unwrap();
    }
}

fn lit_cells(c: &Chip8) -> usize {
    c.get_screen_buf().iter().filter(|p| **p).count()
}

#[test]
fn load_immediate_sets_register() {
    let mut c = Chip8::new();
    for x in 0..16u16 {
        let nn = (x * 17 + 3) as u8;
        run(&mut c, &[0x6000 | (x << 8) | nn as u16]);
        assert_eq!(c.get_register(x as usize), nn);
    }
}

#[test]
fn add_sets_carry_only_on_overflow() {
    let mut c = Chip8::new();
    run(&mut c, &[0x61C8, 0x6264, 0x8124]);
    assert_eq!(c.get_register(1), 44);
    assert_eq!(c.get_register(15), 1);
    run(&mut c, &[0x6101, 0x6202, 0x8124]);
    assert_eq!(c.get_register(1), 3);
    assert_eq!(c.get_register(15), 0);
    run(&mut c, &[0x61FF, 0x6201, 0x8124]);
    assert_eq!(c.get_register(1), 0);
    assert_eq!(c.get_register(15), 1);
}

#[test]
fn sub_flag_is_inverted_borrow() {
    let mut c = Chip8::new();
    run(&mut c, &[0x6105, 0x6207, 0x8125]);
    assert_eq!(c.get_register(1), 254);
    assert_eq!(c.get_register(15), 0);
    run(&mut c, &[0x6107, 0x6205, 0x8125]);
    assert_eq!(c.get_register(1), 2);
    assert_eq!(c.get_register(15), 1);
    run(&mut c, &[0x6109, 0x6209, 0x8125]);
    assert_eq!(c.get_register(1), 0);
    assert_eq!(c.get_register(15), 1);
}

#[test]
fn subn_subtracts_the_other_way() {
    let mut c = Chip8::new();
    run(&mut c, &[0x6105, 0x6207, 0x8127]);
    assert_eq!(c.get_register(1), 2);
    assert_eq!(c.get_register(15), 1);
    run(&mut c, &[0x6107, 0x6205, 0x8127]);
    assert_eq!(c.get_register(1), 254);
    assert_eq!(c.get_register(15), 0);
}

#[test]
fn shift_right_follows_shift_quirk() {
    let mut c = Chip8::new();
    run(&mut c, &[0x6110, 0x6203, 0x8126]);
    assert_eq!(c.get_register(1), 1);
    assert_eq!(c.get_register(15), 1);
    c.quirks.get_chip("schip");
    run(&mut c, &[0x6110, 0x6203, 0x8126]);
    assert_eq!(c.get_register(1), 8);
    assert_eq!(c.get_register(15), 0);
    assert_eq!(c.get_register(2), 3);
}

#[test]
fn shift_left_follows_shift_quirk() {
    let mut c = Chip8::new();
    run(&mut c, &[0x6101, 0x6281, 0x812E]);
    assert_eq!(c.get_register(1), 2);
    assert_eq!(c.get_register(15), 1);
    c.quirks.get_chip("schip");
    run(&mut c, &[0x6101, 0x6281, 0x812E]);
    assert_eq!(c.get_register(1), 2);
    assert_eq!(c.get_register(15), 0);
}

#[test]
fn logic_ops_clear_flag_under_logic_quirk() {
    let mut c = Chip8::new();
    run(&mut c, &[0x6F07, 0x610C, 0x620A, 0x8121]);
    assert_eq!(c.get_register(1), 0x0E);
    assert_eq!(c.get_register(15), 0);
    c.quirks.get_chip("xo");
    run(&mut c, &[0x6F07, 0x610C, 0x620A, 0x8122]);
    assert_eq!(c.get_register(1), 0x08);
    assert_eq!(c.get_register(15), 7);
    run(&mut c, &[0x610C, 0x620A, 0x8123]);
    assert_eq!(c.get_register(1), 0x06);
    assert_eq!(c.get_register(15), 7);
}

#[test]
fn add_immediate_wraps_without_flag() {
    let mut c = Chip8::new();
    run(&mut c, &[0x6F05, 0x61F0, 0x7120]);
    assert_eq!(c.get_register(1), 0x10);
    assert_eq!(c.get_register(15), 5);
}

#[test]
fn clear_screen_darkens_every_cell() {
    let mut c = Chip8::new();
    c.quirks.get_chip("xo");
    run(&mut c, &[0xA000, 0x6010, 0x6108, 0xD015, 0x00FF, 0x603C, 0xD015]);
    assert!(lit_cells(&c) > 0);
    run(&mut c, &[0x00E0]);
    assert_eq!(lit_cells(&c), 0);
    assert!(c.get_hires());
    run(&mut c, &[0x00FE, 0xD015, 0x00E0]);
    assert_eq!(lit_cells(&c), 0);
}

#[test]
fn call_then_return_resumes_after_call() {
    let mut c = machine_with(&[0x22, 0x06, 0x00, 0x00, 0x00, 0x00, 0x00, 0xEE]);
    c.clock().unwrap();
    assert_eq!(c.get_pc(), 0x206);
    assert_eq!(c.get_sp(), 1);
    c.clock().unwrap();
    assert_eq!(c.get_pc(), 0x202);
    assert_eq!(c.get_sp(), 0);
}

#[test]
fn drawing_twice_restores_screen_and_collides() {
    let mut c = Chip8::new();
    c.quirks.get_chip("xo");
    run(&mut c, &[0xA000, 0x6005, 0x6103, 0xD015]);
    let first = *c.get_screen_buf();
    assert_eq!(c.get_register(15), 0);
    run(&mut c, &[0xD015]);
    assert_eq!(c.get_register(15), 1);
    assert_eq!(lit_cells(&c), 0);
    run(&mut c, &[0xD015]);
    assert_eq!(c.get_screen_buf(), &first);
}

#[test]
fn decimal_digits_of_register() {
    let mut c = Chip8::new();
    run(&mut c, &[0xA300, 0x63FF, 0xF333]);
    assert_eq!(
        (c.get_memory(0x300), c.get_memory(0x301), c.get_memory(0x302)),
        (2, 5, 5)
    );
    run(&mut c, &[0x6307, 0xF333]);
    assert_eq!(
        (c.get_memory(0x300), c.get_memory(0x301), c.get_memory(0x302)),
        (0, 0, 7)
    );
    run(&mut c, &[0x6380, 0xF333]);
    assert_eq!(
        (c.get_memory(0x300), c.get_memory(0x301), c.get_memory(0x302)),
        (1, 2, 8)
    );
}

#[test]
fn glyph_zero_drawn_from_rom() {
    let mut c = machine_with(&[0xA0, 0x00, 0xD0, 0x05]);
    c.clock().unwrap();
    assert_eq!(c.get_index(), 0);
    c.clock().unwrap();
    let glyph: [u8; 5] = [0xF0, 0x90, 0x90, 0x90, 0xF0];
    for y in 0..5 {
        for x in 0..8 {
            let expected = glyph[y] & (0x80 >> x) != 0;
            assert_eq!(c.get_pixel(x, y), expected, "cell ({}, {})", x, y);
        }
    }
    assert_eq!(c.get_register(15), 0);
    assert_eq!(lit_cells(&c), 14);
}

#[test]
fn unknown_opcode_is_reported_with_its_word() {
    let mut c = Chip8::new();
    assert_eq!(c.execute_with(0x8AB8, 0), Err(Chip8Error::UnknownOpcode(0x8AB8)));
    assert_eq!(c.execute_with(0x9121, 0), Err(Chip8Error::UnknownOpcode(0x9121)));
    assert_eq!(c.execute_with(0xE1FF, 0), Err(Chip8Error::UnknownOpcode(0xE1FF)));
    assert_eq!(c.execute_with(0xF1FF, 0), Err(Chip8Error::UnknownOpcode(0xF1FF)));
    assert_eq!(c.get_pc(), 0x200);
}

#[test]
fn zero_page_words_are_no_ops() {
    let mut c = Chip8::new();
    run(&mut c, &[0x6123, 0x0000, 0x0123, 0x00E1]);
    assert_eq!(c.get_register(1), 0x23);
    assert_eq!(c.get_pc(), 0x200);
}

#[test]
fn decode_covers_the_families() {
    assert_eq!(decode(0x00C3), Ok(Operation::ScrollDown(3)));
    assert_eq!(decode(0x00E0), Ok(Operation::Clear));
    assert_eq!(decode(0x00EE), Ok(Operation::Return));
    assert_eq!(decode(0x1ABC), Ok(Operation::Jump(0xABC)));
    assert_eq!(decode(0x5120), Ok(Operation::SkipEqReg(1, 2)));
    assert_eq!(decode(0x812E), Ok(Operation::ShiftLeft(1, 2)));
    assert_eq!(decode(0xB123), Ok(Operation::JumpOffset(0x123)));
    assert_eq!(decode(0xD12F), Ok(Operation::Draw(1, 2, 15)));
    assert_eq!(decode(0xE39E), Ok(Operation::SkipKey(3)));
    assert_eq!(decode(0xF465), Ok(Operation::Load(4)));
    assert_eq!(decode(0xF585), Ok(Operation::RestoreFlags(5)));
}

#[test]
fn out_of_range_accesses_are_errors() {
    let mut c = Chip8::new();
    assert_eq!(c.load_rom(&vec![0u8; 3585]), Err(Chip8Error::OutOfRange));
    assert!(c.load_rom(&vec![1u8; 3584]).is_ok());
    assert_eq!(c.get_memory(0xFFF), 1);

    let mut c = Chip8::new();
    assert_eq!(c.execute_with(0x00EE, 0), Err(Chip8Error::OutOfRange));
    for _ in 0..16 {
        c.execute_with(0x2400, 0).unwrap();
    }
    assert_eq!(c.get_sp(), 16);
    assert_eq!(c.execute_with(0x2400, 0), Err(Chip8Error::OutOfRange));
    assert_eq!(c.get_sp(), 16);

    let mut c = Chip8::new();
    run(&mut c, &[0xAFFE]);
    assert_eq!(c.execute_with(0xF133, 0), Err(Chip8Error::OutOfRange));
    assert_eq!(c.execute_with(0xF255, 0), Err(Chip8Error::OutOfRange));
    assert_eq!(c.execute_with(0xD005, 0), Err(Chip8Error::OutOfRange));
    run(&mut c, &[0x6010]);
    assert_eq!(c.execute_with(0xE09E, 0), Err(Chip8Error::OutOfRange));

    let mut c = Chip8::new();
    run(&mut c, &[0x1FFF]);
    assert_eq!(c.clock(), Err(Chip8Error::OutOfRange));
    assert_eq!(c.get_pc(), 0xFFF);
}

#[test]
fn push_and_pop_move_the_stack_pointer() {
    let mut c = Chip8::new();
    assert_eq!(c.pop(), Err(Chip8Error::OutOfRange));
    c.push(0x345).unwrap();
    c.push(0x678).unwrap();
    assert_eq!(c.get_sp(), 2);
    assert_eq!(c.pop(), Ok(0x678));
    assert_eq!(c.pop(), Ok(0x345));
    assert_eq!(c.get_sp(), 0);
}

#[test]
fn skips_move_past_one_instruction() {
    let mut c = Chip8::new();
    run(&mut c, &[0x6105, 0x3105]);
    assert_eq!(c.get_pc(), 0x202);
    run(&mut c, &[0x3106]);
    assert_eq!(c.get_pc(), 0x202);
    run(&mut c, &[0x4106]);
    assert_eq!(c.get_pc(), 0x204);
    run(&mut c, &[0x6205, 0x5120]);
    assert_eq!(c.get_pc(), 0x206);
    run(&mut c, &[0x9120]);
    assert_eq!(c.get_pc(), 0x206);
}

#[test]
fn keys_drive_skips_and_wait() {
    let mut c = machine_with(&[0xF3, 0x0A]);
    c.clock().unwrap();
    assert_eq!(c.get_pc(), 0x200);
    c.keypress(0xB, true);
    c.keypress(0x7, true);
    c.clock().unwrap();
    assert_eq!(c.get_register(3), 0x7);
    assert_eq!(c.get_pc(), 0x202);
    run(&mut c, &[0x6407, 0xE49E]);
    assert_eq!(c.get_pc(), 0x204);
    run(&mut c, &[0xE4A1]);
    assert_eq!(c.get_pc(), 0x204);
    c.keypress(0x7, false);
    run(&mut c, &[0xE4A1]);
    assert_eq!(c.get_pc(), 0x206);
}

#[test]
fn timers_count_down_to_zero() {
    let mut c = Chip8::new();
    run(&mut c, &[0x6102, 0xF115, 0x6201, 0xF218]);
    assert_eq!(c.get_delay(), 2);
    assert_eq!(c.get_sound(), 1);
    c.update_timer();
    assert_eq!((c.get_delay(), c.get_sound()), (1, 0));
    c.update_timer();
    c.update_timer();
    assert_eq!((c.get_delay(), c.get_sound()), (0, 0));
    run(&mut c, &[0x6109, 0xF115, 0xF507]);
    assert_eq!(c.get_register(5), 9);
}

#[test]
fn v_blank_quirk_stalls_until_timer_tick() {
    let mut c = machine_with(&[0xD0, 0x01, 0x61, 0x07]);
    c.clock().unwrap();
    assert!(c.get_v_blank_wait());
    c.clock().unwrap();
    assert_eq!(c.get_pc(), 0x202);
    c.update_timer();
    assert!(!c.get_v_blank_wait());
    c.clock().unwrap();
    assert_eq!(c.get_register(1), 7);

    let mut c = machine_with(&[0xD0, 0x01, 0x61, 0x07]);
    c.quirks.get_chip("schip");
    c.clock().unwrap();
    assert!(!c.get_v_blank_wait());
    c.clock().unwrap();
    assert_eq!(c.get_register(1), 7);
}

#[test]
fn profiles_select_all_switches() {
    let q = Quirks::new();
    assert!(!q.shift_quirks && q.clip_quirks && q.logic_quirks && q.v_blank_quirks);
    assert_eq!(q.max_size, 3232);
    let mut q = Quirks::new();
    q.get_chip("schip");
    assert!(q.shift_quirks && q.load_store_quirks && q.clip_quirks && q.jump_quirks);
    assert!(!q.logic_quirks && !q.v_blank_quirks);
    assert_eq!(q.max_size, 3583);
    q.get_chip("xo");
    assert!(!q.shift_quirks && !q.load_store_quirks && !q.clip_quirks && !q.jump_quirks);
    assert_eq!(q.max_size, 65024);
    q.get_chip("unknown");
    assert_eq!(q, Quirks::new());
    q.get_chip("schip");
    q.get_chip("chip8");
    assert_eq!(q, Quirks::new());
}

#[test]
fn store_and_load_advance_index_unless_quirk() {
    let mut c = Chip8::new();
    run(&mut c, &[0x6011, 0x6122, 0x6233, 0xA300, 0xF255]);
    assert_eq!(c.get_index(), 0x303);
    assert_eq!(
        (c.get_memory(0x300), c.get_memory(0x301), c.get_memory(0x302)),
        (0x11, 0x22, 0x33)
    );
    run(&mut c, &[0x6000, 0x6100, 0x6200, 0xA300, 0xF165]);
    assert_eq!((c.get_register(0), c.get_register(1), c.get_register(2)), (0x11, 0x22, 0));
    assert_eq!(c.get_index(), 0x302);
    c.quirks.get_chip("schip");
    run(&mut c, &[0xA300, 0xF255]);
    assert_eq!(c.get_index(), 0x300);
}

#[test]
fn flag_registers_save_and_restore() {
    let mut c = Chip8::new();
    run(&mut c, &[0x6009, 0x6108, 0x6207, 0xF175, 0x6000, 0x6100, 0x6200]);
    assert_eq!((c.get_flag_register(0), c.get_flag_register(1), c.get_flag_register(2)), (9, 8, 0));
    run(&mut c, &[0xF285]);
    assert_eq!((c.get_register(0), c.get_register(1), c.get_register(2)), (9, 8, 0));
}

#[test]
fn index_arithmetic_and_glyphs() {
    let mut c = Chip8::new();
    run(&mut c, &[0x610A, 0xF129]);
    assert_eq!(c.get_index(), 50);
    run(&mut c, &[0xF130]);
    assert_eq!(c.get_index(), 180);
    run(&mut c, &[0xA100, 0xF11E]);
    assert_eq!(c.get_index(), 0x10A);
}

#[test]
fn jumps_follow_jump_quirk() {
    let mut c = Chip8::new();
    run(&mut c, &[0x6004, 0x6208, 0xB210]);
    assert_eq!(c.get_pc(), 0x214);
    c.quirks.get_chip("schip");
    run(&mut c, &[0xB210]);
    assert_eq!(c.get_pc(), 0x218);
    run(&mut c, &[0x1ABC]);
    assert_eq!(c.get_pc(), 0xABC);
}

#[test]
fn random_byte_is_masked() {
    let mut c = Chip8::new();
    run(&mut c, &[0x61FF]);
    c.execute(0xC100).unwrap();
    assert_eq!(c.get_register(1), 0);
    for _ in 0..20 {
        c.execute(0xC10F).unwrap();
        assert!(c.get_register(1) <= 0x0F);
    }
    c.execute_with(0xC13C, 0xFF).unwrap();
    assert_eq!(c.get_register(1), 0x3C);
}

#[test]
fn wrap_and_clip_at_screen_edge() {
    let mut c = Chip8::new();
    run(&mut c, &[0xA000, 0x603E, 0x6100, 0xD011]);
    assert!(c.get_pixel(62, 0) && c.get_pixel(63, 0));
    assert!(!c.get_pixel(0, 0) && !c.get_pixel(64, 0));

    let mut c = Chip8::new();
    c.quirks.get_chip("xo");
    run(&mut c, &[0xA000, 0x603E, 0x6100, 0xD011]);
    assert!(c.get_pixel(62, 0) && c.get_pixel(63, 0));
    assert!(c.get_pixel(0, 0) && c.get_pixel(1, 0));
    assert!(!c.get_pixel(64, 0));
}

#[test]
fn extended_sprite_in_high_resolution() {
    let mut c = Chip8::new();
    run(&mut c, &[0x00FF, 0xA000, 0x6000, 0x6100, 0xD010]);
    assert!(c.get_pixel(0, 0) && c.get_pixel(3, 0));
    assert!(c.get_pixel(8, 0) && !c.get_pixel(9, 0) && !c.get_pixel(10, 0));
    assert!(c.get_pixel(11, 0) && !c.get_pixel(12, 0));
    assert_eq!(c.get_register(15), 0);
    assert!(!c.get_pixel(16, 0));
}

#[test]
fn scrolls_shift_the_logical_screen() {
    let mut c = Chip8::new();
    run(&mut c, &[0xA000, 0x6004, 0x6100, 0xD011]);
    assert!(c.get_pixel(4, 0));
    run(&mut c, &[0x00C2]);
    assert!(!c.get_pixel(4, 0) && c.get_pixel(4, 2));
    run(&mut c, &[0x00FB]);
    assert!(!c.get_pixel(4, 2) && c.get_pixel(8, 2));
    run(&mut c, &[0x00FC, 0x00FC]);
    assert!(c.get_pixel(0, 2) && !c.get_pixel(8, 2));
    assert_eq!(lit_cells(&c), 4);
}

#[test]
fn reset_restores_initial_state() {
    let mut c = machine_with(&[0x12, 0x34]);
    c.quirks.get_chip("xo");
    run(&mut c, &[0x6155, 0xA123, 0x00FF, 0xD015]);
    c.keypress(3, true);
    c.reset();
    assert_eq!(c.get_pc(), 0x200);
    assert_eq!(c.get_register(1), 0);
    assert_eq!(c.get_index(), 0);
    assert!(!c.get_hires());
    assert_eq!(lit_cells(&c), 0);
    assert_eq!(c.get_memory(0x200), 0);
    assert_eq!(c.get_memory(0), 0xF0);
    assert_eq!(c.get_memory(79), 0x80);
    assert_eq!(c.quirks.max_size, 65024);
}

#[test]
fn draw_helpers_report_collisions() {
    let mut c = Chip8::new();
    assert_eq!(c.draw_normal(0, 0, 5), Ok(false));
    assert_eq!(c.draw_normal(0, 0, 5), Ok(true));
    assert_eq!(lit_cells(&c), 0);
    assert_eq!(c.draw_extended(10, 10), Ok(false));
    assert!(lit_cells(&c) > 0);
}
