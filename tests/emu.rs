use chippy::emu::{Emu, EmuError, Step, SCREEN_SIZE, SCREEN_WIDTH};

fn words(ops: &[u16]) -> Vec<u8> {
    let mut bytes = Vec::new();
    for op in ops {
        bytes.push((op >> 8) as u8);
        bytes.push((op & 0xFF) as u8);
    }
    bytes
}

fn run(ops: &[u16]) -> Emu {
    let mut emu = Emu::new();
    emu.load_rom(&words(ops)).unwrap();
    for _ in 0..ops.len() {
        assert_eq!(emu.tick(), Ok(Step::Executed));
    }
    emu
}

fn cell(emu: &Emu, x: usize, y: usize) -> bool {
    emu.get_display()[y * SCREEN_WIDTH + x]
}

#[test]
fn new_machine_is_powered_on() {
    let mut emu = Emu::new();
    assert_eq!(emu.get_pc(), 0x200);
    assert_eq!(emu.get_index(), 0);
    assert_eq!(emu.get_sp(), 0);
    assert_eq!(emu.get_sound_timer(), 0);
    assert_eq!(emu.get_delay_timer(), 0);
    assert_eq!(emu.get_display().len(), SCREEN_SIZE);
    assert!(emu.get_display().iter().all(|c| !c));
    for x in 0..16 {
        assert_eq!(emu.get_register(x), 0);
        assert!(!emu.is_key_pressed(x));
    }
    // Memory after the font is zero: the first instruction is the no-op.
    assert_eq!(emu.fetch(), Ok(0x0000));
}

#[test]
fn font_glyph_f_is_at_offset_75() {
    // I = 75, draw 5 rows at (0, 0).
    let emu = run(&[0xA04B, 0x6000, 0xD005]);
    let rows = [0xF0u8, 0x80, 0xF0, 0x80, 0x80];
    for (y, row) in rows.iter().enumerate() {
        for x in 0..8 {
            assert_eq!(cell(&emu, x, y), (row >> (7 - x)) & 1 == 1);
        }
    }
}

#[test]
fn add_with_carry_sets_flag_on_overflow() {
    let emu = run(&[0x60C8, 0x6164, 0x8014]);
    assert_eq!(emu.get_register(0), 44);
    assert_eq!(emu.get_register(0xF), 1);
}

#[test]
fn add_with_carry_clears_flag_without_overflow() {
    let emu = run(&[0x6F01, 0x6096, 0x6169, 0x8014]);
    assert_eq!(emu.get_register(0), 255);
    assert_eq!(emu.get_register(0xF), 0);
}

#[test]
fn add_with_carry_into_vf_keeps_the_flag() {
    let emu = run(&[0x6FFF, 0x6102, 0x8F14]);
    assert_eq!(emu.get_register(0xF), 1);
}

#[test]
fn sub_sets_flag_when_no_borrow() {
    let emu = run(&[0x6050, 0x6130, 0x8015]);
    assert_eq!(emu.get_register(0), 0x20);
    assert_eq!(emu.get_register(0xF), 1);
}

#[test]
fn sub_of_equal_values_clears_flag() {
    let emu = run(&[0x6030, 0x6130, 0x8015]);
    assert_eq!(emu.get_register(0), 0);
    assert_eq!(emu.get_register(0xF), 0);
}

#[test]
fn sub_wraps_on_borrow() {
    let emu = run(&[0x6010, 0x6120, 0x8015]);
    assert_eq!(emu.get_register(0), 0xF0);
    assert_eq!(emu.get_register(0xF), 0);
}

#[test]
fn subn_subtracts_the_other_way() {
    let emu = run(&[0x6010, 0x6130, 0x8017]);
    assert_eq!(emu.get_register(0), 0x20);
    assert_eq!(emu.get_register(0xF), 1);
    let emu = run(&[0x6030, 0x6110, 0x8017]);
    assert_eq!(emu.get_register(0), 0xE0);
    assert_eq!(emu.get_register(0xF), 0);
}

#[test]
fn shift_right_keeps_the_low_bit() {
    let emu = run(&[0x6005, 0x8006]);
    assert_eq!(emu.get_register(0), 2);
    assert_eq!(emu.get_register(0xF), 1);
    let emu = run(&[0x6004, 0x8006]);
    assert_eq!(emu.get_register(0), 2);
    assert_eq!(emu.get_register(0xF), 0);
}

#[test]
fn shift_left_keeps_the_high_bit() {
    let emu = run(&[0x6081, 0x800E]);
    assert_eq!(emu.get_register(0), 2);
    assert_eq!(emu.get_register(0xF), 1);
    let emu = run(&[0x6041, 0x800E]);
    assert_eq!(emu.get_register(0), 0x82);
    assert_eq!(emu.get_register(0xF), 0);
}

#[test]
fn logic_operations() {
    let emu = run(&[0x60F0, 0x613C, 0x8011]);
    assert_eq!(emu.get_register(0), 0xFC);
    let emu = run(&[0x60F0, 0x613C, 0x8012]);
    assert_eq!(emu.get_register(0), 0x30);
    let emu = run(&[0x60F0, 0x613C, 0x8013]);
    assert_eq!(emu.get_register(0), 0xCC);
    let emu = run(&[0x60F0, 0x613C, 0x8010]);
    assert_eq!(emu.get_register(0), 0x3C);
}

#[test]
fn add_immediate_wraps_and_leaves_vf() {
    // V1 = 200, VF = 7, then ADD V1, 100.
    let emu = run(&[0x61C8, 0x6F07, 0x7164]);
    assert_eq!(emu.get_register(1), 44);
    assert_eq!(emu.get_register(0xF), 7);
}

#[test]
fn add_immediate_via_execute() {
    let mut emu = Emu::new();
    assert_eq!(emu.execute(0x61C8, 0), Ok(Step::Executed));
    assert_eq!(emu.execute(0x7164, 0), Ok(Step::Executed));
    assert_eq!(emu.get_register(1), 44);
    assert_eq!(emu.get_register(0xF), 0);
}

#[test]
fn skips() {
    let emu = run(&[0x6005, 0x3005]);
    assert_eq!(emu.get_pc(), 0x206);
    let emu = run(&[0x6005, 0x3006]);
    assert_eq!(emu.get_pc(), 0x204);
    let emu = run(&[0x6005, 0x4006]);
    assert_eq!(emu.get_pc(), 0x206);
    let emu = run(&[0x6005, 0x6105, 0x5010]);
    assert_eq!(emu.get_pc(), 0x208);
    let emu = run(&[0x6005, 0x6105, 0x9010]);
    assert_eq!(emu.get_pc(), 0x206);
}

#[test]
fn jump_and_load_index() {
    let emu = run(&[0x1ABC]);
    assert_eq!(emu.get_pc(), 0xABC);
    let emu = run(&[0xA123]);
    assert_eq!(emu.get_index(), 0x123);
}

#[test]
fn random_byte_is_masked() {
    let mut emu = Emu::new();
    assert_eq!(emu.execute(0xC00F, 0xAB), Ok(Step::Executed));
    assert_eq!(emu.get_register(0), 0x0B);
    let emu = run(&[0xC000]);
    assert_eq!(emu.get_register(0), 0);
}

#[test]
fn clear_screen_turns_every_cell_off() {
    let mut emu = run(&[0xA000, 0xD005, 0x6008, 0xD005]);
    assert!(emu.get_display().iter().any(|c| *c));
    assert_eq!(emu.execute(0x00E0, 0), Ok(Step::Executed));
    assert!(emu.get_display().iter().all(|c| !c));
}

#[test]
fn draw_glyph_zero_at_origin() {
    let mut emu = Emu::new();
    emu.load_rom(&words(&[0xA000, 0x6000, 0x6100, 0xD015])).unwrap();
    for _ in 0..4 {
        assert_eq!(emu.tick(), Ok(Step::Executed));
    }
    let rows = [0b11110000u8, 0b10010000, 0b10010000, 0b10010000, 0b11110000];
    for (y, row) in rows.iter().enumerate() {
        for x in 0..8 {
            assert_eq!(cell(&emu, x, y), (row >> (7 - x)) & 1 == 1, "cell ({}, {})", x, y);
        }
    }
    let on = emu.get_display().iter().filter(|c| **c).count();
    assert_eq!(on, 14);
    assert_eq!(emu.get_register(0xF), 0);
}

#[test]
fn draw_clips_at_right_edge() {
    // '0' glyph at x = 62: only its first two columns are visible.
    let emu = run(&[0xA000, 0x603E, 0x6100, 0xD015]);
    assert!(cell(&emu, 62, 0));
    assert!(cell(&emu, 63, 0));
    for y in 0..5 {
        for x in 0..8 {
            assert!(!cell(&emu, x, y));
        }
    }
    let on = emu.get_display().iter().filter(|c| **c).count();
    assert_eq!(on, 7);
}

#[test]
fn draw_clips_at_bottom_edge() {
    // '0' glyph at y = 30: rows 0 and 1 of the glyph are visible, nothing wraps to the top.
    let emu = run(&[0xA000, 0x6000, 0x611E, 0xD015]);
    for x in 0..4 {
        assert!(cell(&emu, x, 30));
        assert!(!cell(&emu, x, 0));
        assert!(!cell(&emu, x, 1));
    }
    let on = emu.get_display().iter().filter(|c| **c).count();
    assert_eq!(on, 6);
}

#[test]
fn draw_twice_restores_screen_and_collides() {
    let emu = run(&[0xA000, 0x6005, 0x6103, 0xD015, 0xD015]);
    assert!(emu.get_display().iter().all(|c| !c));
    assert_eq!(emu.get_register(0xF), 1);
}

#[test]
fn draw_with_index_past_memory_is_fatal() {
    let mut emu = Emu::new();
    assert_eq!(emu.execute(0xAFFE, 0), Ok(Step::Executed));
    assert_eq!(emu.execute(0xD003, 0), Err(EmuError::AddressOutOfRange));
    assert_eq!(emu.execute(0xD002, 0), Ok(Step::Executed));
}

#[test]
fn return_with_empty_stack_is_fatal() {
    let mut emu = Emu::new();
    emu.load_rom(&words(&[0x00EE])).unwrap();
    assert_eq!(emu.tick(), Err(EmuError::StackUnderflow));
    assert_eq!(emu.get_sp(), 0);
}

#[test]
fn call_then_return_resumes_after_the_call() {
    // 0x200: CALL 0x206; 0x202: V0 = 1; 0x204: JP 0x204; 0x206: RET
    let mut emu = Emu::new();
    emu.load_rom(&words(&[0x2206, 0x6001, 0x1204, 0x00EE])).unwrap();
    assert_eq!(emu.tick(), Ok(Step::Executed));
    assert_eq!(emu.get_pc(), 0x206);
    assert_eq!(emu.get_sp(), 1);
    assert_eq!(emu.tick(), Ok(Step::Executed));
    assert_eq!(emu.get_pc(), 0x202);
    assert_eq!(emu.get_sp(), 0);
    assert_eq!(emu.tick(), Ok(Step::Executed));
    assert_eq!(emu.get_register(0), 1);
}

#[test]
fn call_with_full_stack_is_fatal() {
    let mut emu = Emu::new();
    emu.load_rom(&words(&[0x2200])).unwrap();
    for _ in 0..16 {
        assert_eq!(emu.tick(), Ok(Step::Executed));
    }
    assert_eq!(emu.get_sp(), 16);
    assert_eq!(emu.tick(), Err(EmuError::StackOverflow));
    assert_eq!(emu.get_sp(), 16);
}

#[test]
fn unrecognized_opcode_is_reported_and_skipped() {
    let mut emu = Emu::new();
    emu.load_rom(&words(&[0xF00A, 0x8008, 0x5121, 0x6003])).unwrap();
    assert_eq!(emu.tick(), Ok(Step::Unrecognized(0xF00A)));
    assert_eq!(emu.tick(), Ok(Step::Unrecognized(0x8008)));
    assert_eq!(emu.tick(), Ok(Step::Unrecognized(0x5121)));
    assert_eq!(emu.tick(), Ok(Step::Executed));
    assert_eq!(emu.get_register(0), 3);
}

#[test]
fn fetch_past_memory_is_fatal() {
    let mut emu = Emu::new();
    assert_eq!(emu.execute(0x1FFF, 0), Ok(Step::Executed));
    assert_eq!(emu.tick(), Err(EmuError::AddressOutOfRange));
    assert_eq!(emu.get_pc(), 0xFFF);
    assert_eq!(emu.execute(0x1FFE, 0), Ok(Step::Executed));
    assert_eq!(emu.fetch(), Ok(0));
    assert_eq!(emu.get_pc(), 0x1000);
}

#[test]
fn rom_that_fills_memory_loads() {
    let mut emu = Emu::new();
    let mut data = vec![0u8; 4096 - 0x200];
    data[0] = 0x12;
    data[1] = 0x34;
    let last = data.len() - 1;
    data[last] = 0x56;
    assert_eq!(emu.load_rom(&data), Ok(()));
    assert_eq!(emu.fetch(), Ok(0x1234));
}

#[test]
fn rom_one_byte_too_large_is_refused() {
    let mut emu = Emu::new();
    let data = vec![0x12u8; 4096 - 0x200 + 1];
    assert_eq!(emu.load_rom(&data), Err(EmuError::RomTooLarge));
    assert_eq!(emu.fetch(), Ok(0x0000));
}

#[test]
fn timers_never_go_below_zero() {
    let mut emu = run(&[]);
    emu.tick_timers();
    assert_eq!(emu.get_delay_timer(), 0);
    assert_eq!(emu.get_sound_timer(), 0);
}

#[test]
fn keys_are_recorded() {
    let mut emu = Emu::new();
    emu.keypress(0xA, true);
    assert!(emu.is_key_pressed(0xA));
    assert!(!emu.is_key_pressed(0xB));
    emu.keypress(0xA, false);
    assert!(!emu.is_key_pressed(0xA));
}
