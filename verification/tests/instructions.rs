use chip8::cpu::CPU;

fn no_keys() -> Vec<bool> {
    vec![false; 16]
}

fn boot(program: &[u8]) -> CPU {
    let mut cpu = CPU::new();
    cpu.load(&program.to_vec());
    cpu
}

fn run(cpu: &mut CPU, steps: usize) {
    for _ in 0..steps {
        cpu.tick(no_keys()).unwrap();
    }
}

#[test]
fn test_load_immediate_and_assign() {
    let mut cpu = boot(&[0x60, 0x2A, 0x81, 0x00]);
    run(&mut cpu, 2);
    assert_eq!(cpu.get_reg(0), 0x2A);
    assert_eq!(cpu.get_reg(1), 0x2A);
}

#[test]
fn test_add_immediate_wraps() {
    // VF is set beforehand and must not be touched by the wrapping add.
    let mut cpu = boot(&[0x6F, 0x05, 0x60, 0xFF, 0x70, 0x02]);
    run(&mut cpu, 3);
    assert_eq!(cpu.get_reg(0), 0x01);
    assert_eq!(cpu.get_reg(0xF), 0x05);
}

#[test]
fn test_add_registers_with_carry() {
    let mut cpu = boot(&[0x60, 0xFF, 0x61, 0x01, 0x80, 0x14]);
    run(&mut cpu, 3);
    assert_eq!(cpu.get_reg(0), 0x00);
    assert_eq!(cpu.get_reg(0xF), 1);
}

#[test]
fn test_add_registers_without_carry() {
    let mut cpu = boot(&[0x60, 0x01, 0x61, 0x01, 0x80, 0x14]);
    run(&mut cpu, 3);
    assert_eq!(cpu.get_reg(0), 0x02);
    assert_eq!(cpu.get_reg(0xF), 0);
}

#[test]
fn test_sub_with_borrow_flag_set() {
    let mut cpu = boot(&[0x60, 0x05, 0x61, 0x03, 0x80, 0x15]);
    run(&mut cpu, 3);
    assert_eq!(cpu.get_reg(0xF), 1);
    assert_eq!(cpu.get_reg(0), 0x02);
}

#[test]
fn test_sub_wraps_when_flag_clear() {
    let mut cpu = boot(&[0x60, 0x03, 0x61, 0x05, 0x80, 0x15]);
    run(&mut cpu, 3);
    assert_eq!(cpu.get_reg(0xF), 0);
    assert_eq!(cpu.get_reg(0), 0xFE);
}

#[test]
fn test_subn_reversed_operands() {
    let mut cpu = boot(&[0x60, 0x03, 0x61, 0x05, 0x80, 0x17]);
    run(&mut cpu, 3);
    assert_eq!(cpu.get_reg(0xF), 1);
    assert_eq!(cpu.get_reg(0), 0x02);
}

#[test]
fn test_bitwise_or_and_xor() {
    let mut cpu = boot(&[0x60, 0x0C, 0x61, 0x0A, 0x80, 0x11]);
    run(&mut cpu, 3);
    assert_eq!(cpu.get_reg(0), 0x0E);

    let mut cpu = boot(&[0x60, 0x0C, 0x61, 0x0A, 0x80, 0x12]);
    run(&mut cpu, 3);
    assert_eq!(cpu.get_reg(0), 0x08);

    let mut cpu = boot(&[0x60, 0x0C, 0x61, 0x0A, 0x80, 0x13]);
    run(&mut cpu, 3);
    assert_eq!(cpu.get_reg(0), 0x06);
}

#[test]
fn test_shift_right_keeps_low_bit() {
    let mut cpu = boot(&[0x60, 0x05, 0x80, 0x16]);
    run(&mut cpu, 2);
    assert_eq!(cpu.get_reg(0), 0x02);
    assert_eq!(cpu.get_reg(0xF), 1);
}

#[test]
fn test_shift_left_keeps_high_bit() {
    let mut cpu = boot(&[0x60, 0x81, 0x80, 0x1E]);
    run(&mut cpu, 2);
    assert_eq!(cpu.get_reg(0), 0x02);
    assert_eq!(cpu.get_reg(0xF), 1);
}

#[test]
fn test_skip_if_equal_advances_pc_by_four() {
    let mut cpu = boot(&[0x60, 0x05, 0x30, 0x05]);
    run(&mut cpu, 2);
    assert_eq!(cpu.get_pc(), 0x206);
}

#[test]
fn test_skip_if_equal_not_taken_advances_pc_by_two() {
    let mut cpu = boot(&[0x60, 0x05, 0x30, 0x06]);
    run(&mut cpu, 2);
    assert_eq!(cpu.get_pc(), 0x204);
}

#[test]
fn test_skip_register_compare_variants() {
    // V0 == V1: 5xy0 taken, 9xy0 not taken.
    let mut cpu = boot(&[0x60, 0x07, 0x61, 0x07, 0x50, 0x10]);
    run(&mut cpu, 3);
    assert_eq!(cpu.get_pc(), 0x208);

    let mut cpu = boot(&[0x60, 0x07, 0x61, 0x07, 0x90, 0x10]);
    run(&mut cpu, 3);
    assert_eq!(cpu.get_pc(), 0x206);

    // 4xkk taken when unequal.
    let mut cpu = boot(&[0x60, 0x07, 0x40, 0x08]);
    run(&mut cpu, 2);
    assert_eq!(cpu.get_pc(), 0x206);
}

#[test]
fn test_skip_on_key_state() {
    // V0 = 3; E09E skips only when key 3 is pressed.
    let mut cpu = boot(&[0x60, 0x03, 0xE0, 0x9E]);
    run(&mut cpu, 1);
    let mut keys = vec![false; 16];
    keys[3] = true;
    cpu.tick(keys).unwrap();
    assert_eq!(cpu.get_pc(), 0x206);

    // EXA1 with the same key pressed does not skip.
    let mut cpu = boot(&[0x60, 0x03, 0xE0, 0xA1]);
    run(&mut cpu, 1);
    let mut keys = vec![false; 16];
    keys[3] = true;
    cpu.tick(keys).unwrap();
    assert_eq!(cpu.get_pc(), 0x204);
}

#[test]
fn test_jump_call_and_return() {
    // Jump to 0x208, call 0x210 from there, return to 0x20A.
    let mut program = vec![0u8; 0x12];
    program[0x0] = 0x12; // 0x200: jump 0x208
    program[0x1] = 0x08;
    program[0x8] = 0x22; // 0x208: call 0x210
    program[0x9] = 0x10;
    program[0x10] = 0x00; // 0x210: return
    program[0x11] = 0xEE;
    let mut cpu = boot(&program);
    run(&mut cpu, 1);
    assert_eq!(cpu.get_pc(), 0x208);
    run(&mut cpu, 1);
    assert_eq!(cpu.get_pc(), 0x210);
    run(&mut cpu, 1);
    assert_eq!(cpu.get_pc(), 0x20A);
}

#[test]
fn test_jump_with_offset() {
    let mut cpu = boot(&[0x60, 0x04, 0xB3, 0x00]);
    run(&mut cpu, 2);
    assert_eq!(cpu.get_pc(), 0x304);
}

#[test]
fn test_set_and_add_index_register() {
    let mut cpu = boot(&[0xA1, 0x23, 0x60, 0x10, 0xF0, 0x1E]);
    run(&mut cpu, 1);
    assert_eq!(cpu.get_index_reg(), 0x123);
    run(&mut cpu, 2);
    assert_eq!(cpu.get_index_reg(), 0x133);
}

#[test]
fn test_font_address_lookup() {
    let mut cpu = boot(&[0x60, 0x07, 0xF0, 0x29]);
    run(&mut cpu, 2);
    assert_eq!(cpu.get_index_reg(), 35);
}

#[test]
fn test_random_is_masked() {
    // A zero mask forces the drawn byte to zero, whatever it was.
    let mut cpu = boot(&[0x60, 0xAA, 0xC0, 0x00]);
    run(&mut cpu, 2);
    assert_eq!(cpu.get_reg(0), 0);

    let mut cpu = boot(&[0xC0, 0x0F]);
    run(&mut cpu, 1);
    assert!(cpu.get_reg(0) <= 0x0F);
}

#[test]
fn test_bcd_store() {
    let mut cpu = boot(&[0x60, 0x9C, 0xA3, 0x00, 0xF0, 0x33]);
    run(&mut cpu, 3);
    assert_eq!(cpu.get_mem(0x300), 1);
    assert_eq!(cpu.get_mem(0x301), 5);
    assert_eq!(cpu.get_mem(0x302), 6);
}

#[test]
fn test_register_dump_load_roundtrip() {
    // Fill V0..V5, dump them at 0x300, zero the registers, load them back.
    let values: [u8; 6] = [11, 22, 33, 44, 55, 66];
    let mut program: Vec<u8> = Vec::new();
    for (i, &v) in values.iter().enumerate() {
        program.push(0x60 + i as u8);
        program.push(v);
    }
    program.extend_from_slice(&[0xA3, 0x00, 0xF5, 0x55]);
    for i in 0..6u8 {
        program.push(0x60 + i);
        program.push(0x00);
    }
    program.extend_from_slice(&[0xF5, 0x65]);
    let mut cpu = boot(&program);
    run(&mut cpu, 14);
    for i in 0..6 {
        assert_eq!(cpu.get_reg(i), 0, "registers must be zeroed before the load");
    }
    run(&mut cpu, 1);
    for (i, &v) in values.iter().enumerate() {
        assert_eq!(cpu.get_reg(i), v);
    }
    for a in 0..6 {
        assert_eq!(cpu.get_mem(0x300 + a), values[a]);
    }
}

#[test]
fn test_unknown_opcode_is_a_no_op() {
    // 0x0123 matches no instruction: nothing but the program counter moves.
    let mut cpu = boot(&[0x01, 0x23]);
    run(&mut cpu, 1);
    assert_eq!(cpu.get_pc(), 0x202);
    for i in 0..16 {
        assert_eq!(cpu.get_reg(i), 0);
    }
}
