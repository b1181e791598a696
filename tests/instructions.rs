use chip8_emulator::chip8::{
    opcode_00e0, opcode_00ee, opcode_1nnn, opcode_2nnn, opcode_3xnn, opcode_4xnn, opcode_5xy0,
    opcode_6xnn, opcode_7xnn, opcode_8xy0, opcode_8xy1, opcode_8xy2, opcode_8xy3, opcode_8xy4,
    opcode_8xy5, opcode_8xy6, opcode_8xy7, opcode_8xye, opcode_9xy0, view, Chip8,
};

#[test]
fn test_00e0() {
    let mut cpu = Chip8::new();
    for i in 0..64 {
        for j in 0..32 {
            cpu.screen[i * 32 + j] = (i * j) as u8;
        }
    }
    opcode_00e0(&mut cpu);
    for i in 0..64 {
        for j in 0..32 {
            assert_eq!(view(&cpu, i, j), 0);
        }
    }
}

#[test]
fn test_call_and_return() {
    let mut cpu = Chip8::new();
    opcode_1nnn(&mut cpu, 0x200);
    opcode_2nnn(&mut cpu, 0x202);
    assert_eq!(cpu.pc, 0x202);
    assert_eq!(*cpu.stack.last().unwrap(), 0x200);
    opcode_00ee(&mut cpu).unwrap();
    assert_eq!(cpu.pc, 0x200);
}

#[test]
fn test_cond_xnn() {
    let mut cpu = Chip8::new();
    opcode_1nnn(&mut cpu, 0x200);

    cpu.v[0] = 0x11;
    opcode_3xnn(&mut cpu, 0x3011);
    assert_eq!(cpu.pc, 0x202);
    opcode_4xnn(&mut cpu, 0x4011);
    assert_eq!(cpu.pc, 0x202);

    opcode_3xnn(&mut cpu, 0x3001);
    assert_eq!(cpu.pc, 0x202);
    opcode_4xnn(&mut cpu, 0x4001);
    assert_eq!(cpu.pc, 0x204);
}

#[test]
fn test_cond_xy() {
    let mut cpu = Chip8::new();
    opcode_1nnn(&mut cpu, 0x200);

    cpu.v[0] = 0x11;
    cpu.v[1] = 0x11;
    cpu.v[2] = 0x01;
    opcode_5xy0(&mut cpu, 0x5010);
    assert_eq!(cpu.pc, 0x202);
    opcode_9xy0(&mut cpu, 0x9010);
    assert_eq!(cpu.pc, 0x202);

    opcode_5xy0(&mut cpu, 0x5020);
    assert_eq!(cpu.pc, 0x202);
    opcode_9xy0(&mut cpu, 0x9020);
    assert_eq!(cpu.pc, 0x204);
}

#[test]
fn test_const() {
    let mut cpu = Chip8::new();
    cpu.v[0] = 0x11;
    opcode_6xnn(&mut cpu, 0x6022);
    assert_eq!(cpu.v[0], 0x22);

    opcode_7xnn(&mut cpu, 0x7011);
    assert_eq!(cpu.v[0], 0x33);
}

#[test]
fn test_assign() {
    let mut cpu = Chip8::new();
    cpu.v[0] = 0x11;
    cpu.v[2] = 0x23;
    opcode_8xy0(&mut cpu, 0x8020);
    assert_eq!(cpu.v[0], 0x23);
}

#[test]
fn test_bitop() {
    let mut cpu = Chip8::new();
    cpu.v[0] = 0xAA;
    cpu.v[1] = 0xA5;
    opcode_8xy1(&mut cpu, 0x8011);
    assert_eq!(cpu.v[0], 0xAA | 0xA5);
    opcode_8xy2(&mut cpu, 0x8012);
    assert_eq!(cpu.v[0], 0xAF & 0xA5);
    opcode_8xy3(&mut cpu, 0x8013);
    assert_eq!(cpu.v[0], 0xA5 ^ 0xA5);
    opcode_8xy6(&mut cpu, 0x8016);
    assert_eq!(cpu.v[0], 0x00);

    cpu.v[0] = 0xA5;
    opcode_8xy6(&mut cpu, 0x8016);
    assert_eq!(cpu.v[0], 0x52);
    assert_eq!(cpu.v[0xF], 0x1);
    opcode_8xye(&mut cpu, 0x801e);
    assert_eq!(cpu.v[0], 0xA4);
    assert_eq!(cpu.v[0xF], 0x0);
}

#[test]
fn test_math() {
    let mut cpu = Chip8::new();
    cpu.v[0] = 0xFF;
    cpu.v[1] = 0x11;

    opcode_8xy4(&mut cpu, 0x8014);
    assert_eq!(cpu.v[0], 0x10);
    assert_eq!(cpu.v[0xF], 0x1);
    opcode_8xy4(&mut cpu, 0x8014);
    assert_eq!(cpu.v[0], 0x21);
    assert_eq!(cpu.v[0xF], 0x0);

    opcode_8xy5(&mut cpu, 0x8015);
    assert_eq!(cpu.v[0], 0x10);
    assert_eq!(cpu.v[0xF], 0x1);
    opcode_8xy5(&mut cpu, 0x8015);
    assert_eq!(cpu.v[0], 0xFF);
    assert_eq!(cpu.v[0xF], 0x0);

    opcode_8xy7(&mut cpu, 0x8017);
    assert_eq!(cpu.v[0], 0x12);
    assert_eq!(cpu.v[0xF], 0x0);
}
