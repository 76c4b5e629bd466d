use chip8::cpu::CPU;
use chip8::keypad::Keypad;
use chip8::machine::Fault;

const FONT: [u8; 80] = [
    0xF0, 0x90, 0x90, 0x90, 0xF0, 0x20, 0x60, 0x20, 0x20, 0x70, 0xF0, 0x10, 0xF0, 0x80, 0xF0,
    0xF0, 0x10, 0xF0, 0x10, 0xF0, 0x90, 0x90, 0xF0, 0x10, 0x10, 0xF0, 0x80, 0xF0, 0x10, 0xF0,
    0xF0, 0x80, 0xF0, 0x90, 0xF0, 0xF0, 0x10, 0x20, 0x40, 0x40, 0xF0, 0x90, 0xF0, 0x90, 0xF0,
    0xF0, 0x90, 0xF0, 0x10, 0xF0, 0xF0, 0x90, 0xF0, 0x90, 0x90, 0xE0, 0x90, 0xE0, 0x90, 0xE0,
    0xF0, 0x80, 0x80, 0x80, 0xF0, 0xE0, 0x90, 0x90, 0x90, 0xE0, 0xF0, 0x80, 0xF0, 0x80, 0xF0,
    0xF0, 0x80, 0xF0, 0x80, 0x80,
];

fn no_keys() -> Vec<bool> {
    vec![false; 16]
}

fn boot(program: &[u8]) -> CPU {
    let mut cpu = CPU::new();
    cpu.load(&program.to_vec());
    cpu
}

fn run(cpu: &mut CPU, steps: usize) {
    for _ in 0..steps {
        cpu.tick(no_keys()).unwrap();
    }
}

fn cell(cpu: &CPU, x: usize, y: usize) -> u8 {
    cpu.get_vram()[x * 32 + y]
}

#[test]
fn test_font_intact_after_load() {
    let mut cpu = CPU::new();
    for (i, &b) in FONT.iter().enumerate() {
        assert_eq!(cpu.get_mem(i), b);
    }
    cpu.load(&vec![0xFF; 3584]);
    for (i, &b) in FONT.iter().enumerate() {
        assert_eq!(cpu.get_mem(i), b);
    }
    assert_eq!(cpu.get_mem(0x200), 0xFF);
    assert_eq!(cpu.get_mem(0xFFF), 0xFF);
}

#[test]
fn test_draw_sets_cells_and_render_flag() {
    // Draw the single row 0b1111_1111 at (10, 5).
    let mut cpu = boot(&[0x60, 0x0A, 0x61, 0x05, 0xA2, 0x0A, 0xD0, 0x11, 0x00, 0x00, 0xFF]);
    run(&mut cpu, 3);
    assert!(!cpu.new_screen());
    run(&mut cpu, 1);
    assert!(cpu.new_screen());
    for dx in 0..8 {
        assert_eq!(cell(&cpu, 10 + dx, 5), 1);
    }
    assert_eq!(cell(&cpu, 9, 5), 0);
    assert_eq!(cell(&cpu, 18, 5), 0);
    assert_eq!(cpu.get_reg(0xF), 0);
    // The next step does not draw, so the changed flag falls back.
    run(&mut cpu, 1);
    assert!(!cpu.new_screen());
}

#[test]
fn test_draw_twice_restores_display() {
    let mut cpu = boot(&[
        0x60, 0x0A, 0x61, 0x05, 0xA2, 0x0A, 0xD0, 0x11, 0xD0, 0x11, 0xFF, 0x00,
    ]);
    run(&mut cpu, 4);
    assert_eq!(cpu.get_reg(0xF), 0);
    run(&mut cpu, 1);
    // The second identical draw erased every cell the first one lit.
    assert_eq!(cpu.get_reg(0xF), 1);
    for k in 0..64 * 32 {
        assert_eq!(cpu.get_vram()[k], 0);
    }
    assert!(cpu.new_screen());
}

#[test]
fn test_draw_wraps_around_right_edge() {
    // Row 0b1100_0000 drawn at x = 63 lights (63, 0) and wraps to (0, 0).
    let mut cpu = boot(&[0x60, 0x3F, 0x61, 0x00, 0xA2, 0x0A, 0xD0, 0x11, 0x00, 0x00, 0xC0]);
    run(&mut cpu, 4);
    assert_eq!(cell(&cpu, 63, 0), 1);
    assert_eq!(cell(&cpu, 0, 0), 1);
    assert_eq!(cell(&cpu, 1, 0), 0);
    assert_eq!(cell(&cpu, 62, 0), 0);
}

#[test]
fn test_draw_wraps_around_bottom_edge() {
    // Two rows drawn at y = 31: the second row wraps to y = 0.
    let mut cpu = boot(&[
        0x60, 0x00, 0x61, 0x1F, 0xA2, 0x0A, 0xD0, 0x12, 0x00, 0x00, 0x80, 0x80,
    ]);
    run(&mut cpu, 4);
    assert_eq!(cell(&cpu, 0, 31), 1);
    assert_eq!(cell(&cpu, 0, 0), 1);
}

#[test]
fn test_clear_screen_leaves_render_flag_alone() {
    let mut cpu = boot(&[
        0x60, 0x00, 0x61, 0x00, 0xA2, 0x0A, 0xD0, 0x11, 0x00, 0xE0, 0xFF, 0x00,
    ]);
    run(&mut cpu, 4);
    assert_eq!(cell(&cpu, 0, 0), 1);
    run(&mut cpu, 1);
    for k in 0..64 * 32 {
        assert_eq!(cpu.get_vram()[k], 0);
    }
    // Only the draw instruction reports a new screen; the clear does not.
    assert!(!cpu.new_screen());
}

#[test]
fn test_wait_for_key_blocks_until_pressed() {
    let mut cpu = boot(&[0xF0, 0x0A]);
    for _ in 0..5 {
        cpu.tick(no_keys()).unwrap();
        assert_eq!(cpu.get_pc(), 0x200);
    }
    let mut keys = vec![false; 16];
    keys[3] = true;
    cpu.tick(keys).unwrap();
    assert_eq!(cpu.get_reg(0), 3);
    assert_eq!(cpu.get_pc(), 0x202);
}

#[test]
fn test_wait_for_key_takes_highest_pressed() {
    let mut cpu = boot(&[0xF0, 0x0A]);
    let mut keys = vec![false; 16];
    keys[2] = true;
    keys[7] = true;
    cpu.tick(keys).unwrap();
    assert_eq!(cpu.get_reg(0), 7);
}

#[test]
fn test_delay_timer_counts_down_to_zero() {
    let mut cpu = boot(&[0x60, 0x05, 0xF0, 0x15]);
    run(&mut cpu, 2);
    // The setting step itself already counted the timer down once.
    assert_eq!(cpu.get_delay_timer(), 4);
    for expected in [3, 2, 1, 0, 0] {
        run(&mut cpu, 1);
        assert_eq!(cpu.get_delay_timer(), expected);
    }
}

#[test]
fn test_sound_timer_counts_down_to_zero() {
    let mut cpu = boot(&[0x60, 0x02, 0xF0, 0x18]);
    run(&mut cpu, 2);
    assert_eq!(cpu.get_sound_timer(), 1);
    run(&mut cpu, 1);
    assert_eq!(cpu.get_sound_timer(), 0);
    run(&mut cpu, 1);
    assert_eq!(cpu.get_sound_timer(), 0);
}

#[test]
fn test_read_delay_timer_into_register() {
    let mut cpu = boot(&[0x60, 0x05, 0xF0, 0x15, 0xF1, 0x07]);
    run(&mut cpu, 3);
    assert_eq!(cpu.get_reg(1), 4);
}

#[test]
fn test_fault_stack_underflow() {
    let mut cpu = boot(&[0x00, 0xEE]);
    let r = cpu.tick(no_keys());
    assert_eq!(r, Err(Fault::StackUnderflow));
    assert_eq!(cpu.get_pc(), 0x200);
}

#[test]
fn test_fault_stack_overflow() {
    // A chain of seventeen calls: the seventeenth finds the stack full.
    let mut program: Vec<u8> = Vec::new();
    for k in 0..17u16 {
        let target = 0x202 + 2 * k;
        program.push(0x20 | (target >> 8) as u8);
        program.push((target & 0xFF) as u8);
    }
    let mut cpu = boot(&program);
    run(&mut cpu, 16);
    let r = cpu.tick(no_keys());
    assert_eq!(r, Err(Fault::StackOverflow));
    assert_eq!(cpu.get_pc(), 0x220);
}

#[test]
fn test_fault_draw_past_end_of_memory() {
    let mut cpu = boot(&[0xAF, 0xFF, 0xD0, 0x02]);
    run(&mut cpu, 1);
    let r = cpu.tick(no_keys());
    assert_eq!(r, Err(Fault::AddressOutOfRange));
}

#[test]
fn test_fault_bcd_past_end_of_memory() {
    let mut cpu = boot(&[0xAF, 0xFE, 0xF0, 0x33]);
    run(&mut cpu, 1);
    let r = cpu.tick(no_keys());
    assert_eq!(r, Err(Fault::AddressOutOfRange));
}

#[test]
fn test_fault_dump_past_end_of_memory() {
    let mut cpu = boot(&[0xAF, 0xFE, 0xF5, 0x55]);
    run(&mut cpu, 1);
    let r = cpu.tick(no_keys());
    assert_eq!(r, Err(Fault::AddressOutOfRange));
}

#[test]
fn test_fault_key_index_out_of_range() {
    let mut cpu = boot(&[0x60, 0xFF, 0xE0, 0x9E]);
    run(&mut cpu, 1);
    let r = cpu.tick(no_keys());
    assert_eq!(r, Err(Fault::KeyOutOfRange));
}

#[test]
fn test_fault_fetch_past_end_of_memory() {
    let mut cpu = boot(&[0x1F, 0xFF]);
    run(&mut cpu, 1);
    assert_eq!(cpu.get_pc(), 0xFFF);
    let r = cpu.tick(no_keys());
    assert_eq!(r, Err(Fault::AddressOutOfRange));
    assert_eq!(cpu.get_pc(), 0xFFF);
}

#[test]
fn test_keypad_starts_blank() {
    let pad = Keypad::new();
    assert_eq!(pad.keys.len(), 16);
    assert!(pad.keys.iter().all(|&k| !k));
    assert!(!pad.terminate);
}
