use chip8_core::machine::{FONTSET_SIZE, NUM_KEYS, RAM_SIZE, SCREEN_SIZE, SKIP};
use chip8_core::{Emu, SCREEN_HEIGHT, SCREEN_WIDTH, START_ADDR, VF};

fn run(emu: &mut Emu, opcodes: &[u16]) {
    let bytes: Vec<u8> = opcodes
        .iter()
        .flat_map(|&op| [(op >> 8) as u8, op as u8])
        .collect();
    emu.load(&bytes);
    for _ in opcodes {
        assert!(emu.can_tick());
        emu.tick();
    }
}

const FONT: [u8; 80] = [
    0xF0, 0x90, 0x90, 0x90, 0xF0, 0x20, 0x60, 0x20, 0x20, 0x70, 0xF0, 0x10, 0xF0, 0x80, 0xF0,
    0xF0, 0x10, 0xF0, 0x10, 0xF0, 0x90, 0x90, 0xF0, 0x10, 0x10, 0xF0, 0x80, 0xF0, 0x10, 0xF0,
    0xF0, 0x80, 0xF0, 0x90, 0xF0, 0xF0, 0x10, 0x20, 0x40, 0x40, 0xF0, 0x90, 0xF0, 0x90, 0xF0,
    0xF0, 0x90, 0xF0, 0x10, 0xF0, 0xF0, 0x90, 0xF0, 0x90, 0x90, 0xE0, 0x90, 0xE0, 0x90, 0xE0,
    0xF0, 0x80, 0x80, 0x80, 0xF0, 0xE0, 0x90, 0x90, 0x90, 0xE0, 0xF0, 0x80, 0xF0, 0x80, 0xF0,
    0xF0, 0x80, 0xF0, 0x80, 0x80,
];

#[test]
fn new_machine_holds_font_and_zeros() {
    let emu = Emu::new();
    assert_eq!(&emu.ram[..FONTSET_SIZE], &FONT[..]);
    assert!(emu.ram[FONTSET_SIZE..].iter().all(|&b| b == 0));
    assert!(emu.screen.iter().all(|&p| p == 0));
    assert!(emu.v_reg.iter().all(|&v| v == 0));
    assert!(emu.keys.iter().all(|&k| !k));
    assert_eq!(emu.pc, START_ADDR);
    assert_eq!((emu.i_reg, emu.sp, emu.dt, emu.st), (0, 0, 0, 0));
}

#[test]
fn reset_gives_a_new_machine() {
    let mut emu = Emu::new();
    run(&mut emu, &[0x6A42, 0xA123, 0x00E0]);
    emu.keypress(4, true);
    emu.reset();
    let fresh = Emu::new();
    assert_eq!(emu.ram, fresh.ram);
    assert_eq!(emu.v_reg, fresh.v_reg);
    assert_eq!(emu.keys, fresh.keys);
    assert_eq!((emu.pc, emu.i_reg, emu.sp), (fresh.pc, fresh.i_reg, fresh.sp));
}

#[test]
fn load_copies_from_start_address() {
    let mut emu = Emu::new();
    emu.load(&[1, 2, 3]);
    assert_eq!(&emu.ram[0x200..0x203], &[1, 2, 3]);
    assert_eq!(emu.ram[0x203], 0);
    assert_eq!(emu.ram[0x1FF], 0);
}

#[test]
fn load_fills_memory_to_the_end() {
    let mut emu = Emu::new();
    let data = vec![7u8; RAM_SIZE - START_ADDR as usize];
    emu.load(&data);
    assert_eq!(emu.ram[RAM_SIZE - 1], 7);
    assert_eq!(emu.ram[0], 0xF0);
}

#[test]
fn keypress_sets_and_releases_one_key() {
    let mut emu = Emu::new();
    emu.keypress(NUM_KEYS - 1, true);
    assert!(emu.keys[15]);
    assert!(emu.keys[..15].iter().all(|&k| !k));
    emu.keypress(15, false);
    assert!(!emu.keys[15]);
}

#[test]
fn display_is_the_screen() {
    let mut emu = Emu::new();
    emu.screen[5] = 1;
    let display = emu.get_display();
    assert_eq!(display.len(), SCREEN_WIDTH * SCREEN_HEIGHT);
    assert_eq!(display[5], 1);
    assert_eq!(display.iter().filter(|&&p| p == 1).count(), 1);
}

#[test]
fn timers_stop_at_zero() {
    let mut emu = Emu::new();
    emu.dt = 1;
    emu.tick_timers();
    emu.tick_timers();
    assert_eq!((emu.dt, emu.st), (0, 0));
}

#[test]
fn random_byte_is_masked() {
    let mut emu = Emu::new();
    for _ in 0..32 {
        emu.pc = START_ADDR;
        run(&mut emu, &[0xC30F]);
        assert_eq!(emu.v_reg[3] & 0xF0, 0);
    }
    run(&mut emu, &[0x6377, 0xC300]);
    assert_eq!(emu.v_reg[3], 0);
}

#[test]
fn execute_masks_the_given_byte() {
    let mut emu = Emu::new();
    emu.execute(0xC00F, 0xAB);
    assert_eq!(emu.v_reg[0], 0x0B);
    emu.execute(0xC1F0, 0xAB);
    assert_eq!(emu.v_reg[1], 0xA0);
}

#[test]
fn nop_changes_nothing() {
    let mut emu = Emu::new();
    run(&mut emu, &[0x0000]);
    assert_eq!(emu.pc, START_ADDR + SKIP);
    assert!(emu.v_reg.iter().all(|&v| v == 0));
}

#[test]
fn subn_with_borrow() {
    let mut emu = Emu::new();
    run(&mut emu, &[0x6A05, 0x6B03, 0x8AB7]);
    assert_eq!(emu.v_reg[0xA], 0xFE);
    assert_eq!(emu.v_reg[VF], 0);
}

#[test]
fn flag_register_as_target_holds_the_flag() {
    let mut emu = Emu::new();
    run(&mut emu, &[0x6FFF, 0x6E01, 0x8FE4]);
    assert_eq!(emu.v_reg[VF], 1);
}

#[test]
fn bcd_of_255() {
    let mut emu = Emu::new();
    run(&mut emu, &[0xA300, 0x65FF, 0xF533]);
    assert_eq!(&emu.ram[0x300..0x303], &[2, 5, 5]);
}

#[test]
fn font_glyph_draws_digit() {
    let mut emu = Emu::new();
    // V0 = 0 (digit and coordinates), I = glyph of 0, draw 5 rows
    run(&mut emu, &[0xF029, 0xD005]);
    assert_eq!(emu.i_reg, 0);
    for row in 0..5 {
        let bits = FONT[row];
        for col in 0..8 {
            let expected = (bits >> (7 - col)) & 1;
            assert_eq!(emu.screen[col + SCREEN_WIDTH * row], expected);
        }
    }
    assert_eq!(emu.v_reg[VF], 0);
}

#[test]
fn sprite_wraps_around_both_edges() {
    let mut emu = Emu::new();
    emu.ram[0x300] = 0xFF;
    emu.ram[0x301] = 0x80;
    // V0 = 62, V1 = 31: two pixels on the right edge, six wrap to the left;
    // the second row wraps to the top.
    run(&mut emu, &[0xA300, 0x603E, 0x611F, 0xD012]);
    let row = 31 * SCREEN_WIDTH;
    assert_eq!(emu.screen[row + 62], 1);
    assert_eq!(emu.screen[row + 63], 1);
    for col in 0..6 {
        assert_eq!(emu.screen[row + col], 1);
    }
    assert_eq!(emu.screen[row + 6], 0);
    assert_eq!(emu.screen[62], 1);
    assert_eq!(emu.screen[63], 0);
    assert_eq!(emu.screen.iter().filter(|&&p| p == 1).count(), 9);
}

#[test]
fn collision_only_when_a_lit_pixel_goes_dark() {
    let mut emu = Emu::new();
    emu.ram[0x300] = 0x80;
    emu.screen[1] = 1;
    run(&mut emu, &[0xA300, 0x6000, 0x6100, 0xD011]);
    assert_eq!(emu.v_reg[VF], 0);
    assert_eq!(emu.screen[0], 1);
    emu.screen[0] = 1;
    emu.pc = START_ADDR + 6;
    emu.tick();
    assert_eq!(emu.v_reg[VF], 1);
    assert_eq!(emu.screen[0], 0);
    assert_eq!(emu.screen[1], 1);
}

#[test]
fn drawing_twice_restores_the_screen() {
    let mut emu = Emu::new();
    emu.ram[0x300] = 0b1010_0110;
    emu.ram[0x301] = 0b0101_1001;
    emu.screen[3] = 1;
    emu.screen[70] = 1;
    let before = emu.screen;
    run(&mut emu, &[0xA300, 0x6002, 0x6100, 0xD012, 0xD012]);
    assert_eq!(emu.screen, before);
}

#[test]
fn call_then_return_restores_the_stack_pointer() {
    let mut emu = Emu::new();
    emu.ram[0x400] = 0x00;
    emu.ram[0x401] = 0xEE;
    run(&mut emu, &[0x6000, 0x2400]);
    assert_eq!(emu.sp, 1);
    emu.tick();
    assert_eq!(emu.pc, START_ADDR + 4);
    assert_eq!(emu.sp, 0);
    assert_eq!(emu.stack[0], START_ADDR + 4);
}

#[test]
fn skips_are_complementary() {
    for v in [0x41u16, 0x42] {
        let mut a = Emu::new();
        run(&mut a, &[0x6100 | v, 0x3142]);
        let mut b = Emu::new();
        run(&mut b, &[0x6100 | v, 0x4142]);
        assert_ne!(a.pc == START_ADDR + 6, b.pc == START_ADDR + 6);
    }
}

#[test]
fn wait_without_key_leaves_machine_unchanged() {
    let mut emu = Emu::new();
    emu.load(&[0xF3, 0x0A]);
    let before = (emu.pc, emu.v_reg, emu.i_reg, emu.sp, emu.screen);
    emu.tick();
    emu.tick();
    assert_eq!((emu.pc, emu.v_reg, emu.i_reg, emu.sp, emu.screen), before);
}

#[test]
fn wait_takes_the_first_key_held() {
    let mut emu = Emu::new();
    emu.keypress(9, true);
    emu.keypress(4, true);
    run(&mut emu, &[0xF20A]);
    assert_eq!(emu.v_reg[2], 4);
}

#[test]
fn store_then_load_keeps_registers() {
    let mut emu = Emu::new();
    run(&mut emu, &[0x6011, 0x6122, 0xA500, 0xF155, 0xF165]);
    assert_eq!(&emu.v_reg[..2], &[0x11, 0x22]);
    assert_eq!(&emu.ram[0x500..0x502], &[0x11, 0x22]);
    assert_eq!(emu.ram[0x502], 0);
}

#[test]
fn i_wraps_when_adding_vx() {
    let mut emu = Emu::new();
    emu.i_reg = 0xFFFF;
    emu.v_reg[0] = 2;
    emu.execute(0xF01E, 0);
    assert_eq!(emu.i_reg, 1);
}

#[test]
fn faulting_instructions_are_reported() {
    let mut emu = Emu::new();
    // unknown opcodes
    assert!(!emu.can_execute(0x5121));
    assert!(!emu.can_execute(0x8128));
    assert!(!emu.can_execute(0x0123));
    assert!(!emu.can_execute(0xE1FF));
    // return with an empty stack
    assert!(!emu.can_execute(0x00EE));
    // BCD at the last byte of memory
    emu.i_reg = (RAM_SIZE - 2) as u16;
    assert!(!emu.can_execute(0xF033));
    emu.i_reg = (RAM_SIZE - 3) as u16;
    assert!(emu.can_execute(0xF033));
    // key index outside the keypad
    emu.v_reg[1] = 16;
    assert!(!emu.can_execute(0xE19E));
    emu.v_reg[1] = 15;
    assert!(emu.can_execute(0xE19E));
    // sprite rows past the end of memory
    emu.i_reg = (RAM_SIZE - 1) as u16;
    assert!(emu.can_execute(0xD011));
    assert!(!emu.can_execute(0xD012));
    // fetching past the end of memory
    emu.pc = (RAM_SIZE - 1) as u16;
    assert!(!emu.can_tick());
    // call with a full stack
    emu.sp = 16;
    assert!(!emu.can_execute(0x2300));
    assert!(emu.can_execute(0x00EE));
}

#[test]
fn screen_stays_binary() {
    let mut emu = Emu::new();
    emu.ram[0x300] = 0xFF;
    run(&mut emu, &[0xA300, 0x6005, 0x6103, 0xD01F, 0xD01F, 0xD011]);
    assert!(emu.screen.iter().all(|&p| p <= 1));
    assert_eq!(emu.screen.len(), SCREEN_SIZE);
}
