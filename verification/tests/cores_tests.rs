use chip8_core::chip8::{CPU, GFX_SIZE, MEM_SIZE};
use chip8_core::cpu::Cpu;

#[test]
fn cpu_starts_at_0x200() {
    let cpu = CPU::new();
    assert_eq!(cpu.pc, 0x200);
    assert_eq!(cpu.sp, 0);
    assert!(!cpu.draw_flag);
    assert!(cpu.memory.iter().all(|&b| b == 0));
    assert_eq!(cpu.gfx.len(), GFX_SIZE);
}

#[test]
fn cpu_load_rom_copies_at_0x200() {
    let mut cpu = CPU::new();
    cpu.pc = 0x300;
    cpu.load_rom(&[0xAB, 0xCD]);
    assert_eq!(cpu.memory[0x200], 0xAB);
    assert_eq!(cpu.memory[0x201], 0xCD);
    assert_eq!(cpu.memory[0x202], 0);
    assert_eq!(cpu.pc, 0x200);
    let big = vec![1u8; MEM_SIZE - 0x200];
    cpu.load_rom(&big);
    assert_eq!(cpu.memory[MEM_SIZE - 1], 1);
}

#[test]
fn cpu_step_reads_high_byte_first() {
    let mut cpu = CPU::new();
    // 1234: jump to 0x234; the reversed 3412 would skip instead
    cpu.memory[0x200] = 0x12;
    cpu.memory[0x201] = 0x34;
    cpu.step();
    assert_eq!(cpu.pc, 0x234);
}

#[test]
fn cpu_clear_screen_sets_draw_flag() {
    let mut cpu = CPU::new();
    cpu.gfx[10] = 1;
    cpu.memory[0x200] = 0x00;
    cpu.memory[0x201] = 0xE0;
    cpu.step();
    assert!(cpu.draw_flag);
    assert!(cpu.gfx.iter().all(|&p| p == 0));
    assert_eq!(cpu.pc, 0x202);
    // the next step clears the flag again
    cpu.step();
    assert!(!cpu.draw_flag);
}

#[test]
fn cpu_call_and_return() {
    let mut cpu = CPU::new();
    cpu.memory[0x200] = 0x23;
    cpu.memory[0x201] = 0x00;
    cpu.memory[0x300] = 0x00;
    cpu.memory[0x301] = 0xEE;
    cpu.step();
    assert_eq!((cpu.pc, cpu.sp, cpu.stack[0]), (0x300, 1, 0x202));
    cpu.step();
    assert_eq!((cpu.pc, cpu.sp), (0x202, 0));
}

#[test]
fn cpu_skips_on_immediate() {
    let mut cpu = CPU::new();
    cpu.v[3] = 0x42;
    cpu.memory[0x200] = 0x33;
    cpu.memory[0x201] = 0x42;
    cpu.memory[0x204] = 0x43;
    cpu.memory[0x205] = 0x42;
    cpu.step();
    assert_eq!(cpu.pc, 0x204);
    cpu.step();
    assert_eq!(cpu.pc, 0x206);
}

#[test]
fn cpu_ignores_sys_and_unknown() {
    let mut cpu = CPU::new();
    cpu.memory[0x200] = 0x01;
    cpu.memory[0x201] = 0x23;
    cpu.memory[0x202] = 0x61;
    cpu.memory[0x203] = 0x05;
    cpu.step();
    cpu.step();
    assert_eq!(cpu.pc, 0x204);
    assert_eq!(cpu.v[1], 0);
}

#[test]
fn cpu_set_key_ignores_keys_outside_pad() {
    let mut cpu = CPU::new();
    cpu.set_key(16, true);
    assert!(cpu.keys.iter().all(|&k| !k));
    cpu.set_key(7, true);
    assert!(cpu.keys[7]);
    assert!(cpu.v.iter().all(|&v| v == 0));
}

#[test]
fn cpu_timers_stop_at_zero() {
    let mut cpu = CPU::new();
    cpu.delay_timer = 2;
    cpu.sound_timer = 1;
    cpu.tick_timers_60hz();
    assert_eq!((cpu.delay_timer, cpu.sound_timer), (1, 0));
    cpu.tick_timers_60hz();
    cpu.tick_timers_60hz();
    assert_eq!((cpu.delay_timer, cpu.sound_timer), (0, 0));
}

#[test]
fn cpu_pc_wraps_at_top_of_range() {
    let mut cpu = CPU::new();
    cpu.v[0] = 1;
    cpu.pc = 0x100;
    cpu.memory[0x100] = 0x30;
    cpu.memory[0x101] = 0x01;
    cpu.step();
    assert_eq!(cpu.pc, 0x104);
}

#[test]
fn other_cpu_parses_nibbles() {
    let cpu = Cpu::new();
    assert_eq!(cpu.parse_opcode(0x1234), (1, 2, 3, 4));
    assert_eq!(cpu.parse_opcode(0xF0E9), (0xF, 0, 0xE, 9));
}

#[test]
fn other_cpu_executes_repeatedly() {
    let mut cpu = Cpu::new();
    for op in [0x00E0u16, 0x1234, 0x2345] {
        cpu.execute_instruction(op);
    }
}
