use chip8_emulator::chip8::{
    cpu_reset, delay_timer, execute, execute_with_random, get_clear_flag, get_key_pressed,
    get_nexe_opcode, key_pressed, key_released, opcode_00ee, opcode_0nnn, opcode_8xy4,
    opcode_8xy5, opcode_8xy6, opcode_annn, opcode_bnnn, opcode_cxnn, opcode_cxnn_with,
    opcode_dxyn, opcode_ex9e, opcode_exa1, opcode_fx07, opcode_fx0a, opcode_fx15, opcode_fx1e,
    opcode_fx29, opcode_fx33, opcode_fx55, opcode_fx65, sound_timer, view, Chip8,
};
use chip8_emulator::error::Error;

fn machine_with(program: &[u8]) -> Chip8 {
    let mut cpu = Chip8::new();
    cpu_reset(&mut cpu, program);
    cpu
}

#[test]
fn load_then_add_wraps_at_byte_boundary() {
    let mut cpu = machine_with(&[0x63, 0xF0, 0x73, 0x20]);
    execute(&mut cpu).unwrap();
    execute(&mut cpu).unwrap();
    assert_eq!(cpu.v[3], 0x10);
    assert_eq!(cpu.pc, 0x204);

    let mut cpu = machine_with(&[0x6A, 0xFF, 0x7A, 0x01]);
    execute(&mut cpu).unwrap();
    execute(&mut cpu).unwrap();
    assert_eq!(cpu.v[0xA], 0x00);
    assert_eq!(cpu.v[0xF], 0x00);

    let mut cpu = machine_with(&[0x61, 0x05, 0x71, 0x06]);
    execute(&mut cpu).unwrap();
    execute(&mut cpu).unwrap();
    assert_eq!(cpu.v[1], 11);
}

#[test]
fn clear_then_full_read_is_blank_and_flagged() {
    let mut cpu = machine_with(&[0x00, 0xE0]);
    for k in 0..2048 {
        cpu.screen[k] = 1;
    }
    execute(&mut cpu).unwrap();
    for x in 0..64 {
        for y in 0..32 {
            assert_eq!(view(&cpu, x, y), 0);
        }
    }
    assert!(get_clear_flag(&mut cpu));
    assert!(!get_clear_flag(&mut cpu));
}

#[test]
fn call_then_return_resumes_after_call() {
    let mut cpu = machine_with(&[0x23, 0x00]);
    cpu.memory[0x300] = 0x00;
    cpu.memory[0x301] = 0xEE;
    execute(&mut cpu).unwrap();
    assert_eq!(cpu.pc, 0x300);
    assert_eq!(cpu.stack, vec![0x202]);
    execute(&mut cpu).unwrap();
    assert_eq!(cpu.pc, 0x202);
    assert!(cpu.stack.is_empty());
}

#[test]
fn add_sets_carry_then_clears_it() {
    let mut cpu = Chip8::new();
    cpu.v[2] = 0xFF;
    cpu.v[5] = 0x11;
    opcode_8xy4(&mut cpu, 0x8254);
    assert_eq!(cpu.v[2], 0x10);
    assert_eq!(cpu.v[0xF], 1);
    opcode_8xy4(&mut cpu, 0x8254);
    assert_eq!(cpu.v[2], 0x21);
    assert_eq!(cpu.v[0xF], 0);
}

#[test]
fn subtract_reports_borrow() {
    let mut cpu = Chip8::new();
    cpu.v[0] = 0x10;
    cpu.v[1] = 0x11;
    opcode_8xy5(&mut cpu, 0x8015);
    assert_eq!(cpu.v[0xF], 0);
    assert_eq!(cpu.v[0], 0xFF);

    cpu.v[0] = 0x11;
    cpu.v[1] = 0x10;
    opcode_8xy5(&mut cpu, 0x8015);
    assert_eq!(cpu.v[0xF], 1);
    assert_eq!(cpu.v[0], 0x01);
}

#[test]
fn decimal_digits_of_157() {
    let mut cpu = Chip8::new();
    cpu.v[4] = 157;
    cpu.i = 0x300;
    opcode_fx33(&mut cpu, 0xF433).unwrap();
    assert_eq!(&cpu.memory[0x300..0x303], &[1, 5, 7]);
    assert_eq!(cpu.i, 0x300);
}

#[test]
fn decimal_digits_past_memory_end_fail() {
    let mut cpu = Chip8::new();
    cpu.v[4] = 157;
    cpu.i = 0xFFE;
    assert_eq!(opcode_fx33(&mut cpu, 0xF433), Err(Error::OutOfBoundsAccess));
    assert_eq!(cpu.memory[0xFFE], 0);
}

#[test]
fn drawing_twice_clears_and_collides() {
    let mut cpu = Chip8::new();
    cpu.v[0] = 0;
    cpu.v[1] = 10;
    cpu.v[2] = 5;
    opcode_fx29(&mut cpu, 0xF029);
    assert_eq!(cpu.i, 0x50);
    opcode_dxyn(&mut cpu, 0xD125).unwrap();
    assert_eq!(cpu.v[0xF], 0);
    for x in 10..14 {
        assert_eq!(view(&cpu, x, 5), 1);
    }
    assert_eq!(view(&cpu, 14, 5), 0);
    assert_eq!(view(&cpu, 10, 6), 1);
    assert_eq!(view(&cpu, 11, 6), 0);
    assert!(get_clear_flag(&mut cpu));

    opcode_dxyn(&mut cpu, 0xD125).unwrap();
    assert_eq!(cpu.v[0xF], 1);
    for x in 0..64 {
        for y in 0..32 {
            assert_eq!(view(&cpu, x, y), 0);
        }
    }
    assert!(get_clear_flag(&mut cpu));
}

#[test]
fn drawing_clamps_at_the_right_edge() {
    let mut cpu = Chip8::new();
    cpu.memory[0x300] = 0xE0;
    cpu.i = 0x300;
    cpu.v[1] = 62;
    cpu.v[2] = 31;
    opcode_dxyn(&mut cpu, 0xD121).unwrap();
    assert_eq!(view(&cpu, 62, 31), 1);
    assert_eq!(view(&cpu, 63, 31), 0);
    assert_eq!(cpu.v[0xF], 1);
}

#[test]
fn drawing_past_memory_end_fails() {
    let mut cpu = Chip8::new();
    cpu.i = 0xFFF;
    assert_eq!(opcode_dxyn(&mut cpu, 0xD012), Err(Error::OutOfBoundsAccess));
    cpu.i = 0xFFF;
    assert_eq!(opcode_dxyn(&mut cpu, 0xD011), Ok(()));
}

#[test]
fn wait_for_key_stalls_then_takes_lowest_key() {
    let mut cpu = machine_with(&[0xF5, 0x0A]);
    execute(&mut cpu).unwrap();
    assert_eq!(cpu.pc, 0x200);
    execute(&mut cpu).unwrap();
    assert_eq!(cpu.pc, 0x200);
    assert_eq!(cpu.v[5], 0);

    key_pressed(&mut cpu, 9);
    key_pressed(&mut cpu, 3);
    execute(&mut cpu).unwrap();
    assert_eq!(cpu.v[5], 3);
    assert_eq!(cpu.pc, 0x202);
}

#[test]
fn wait_for_key_handler_steps_back() {
    let mut cpu = Chip8::new();
    cpu.pc = 0x202;
    opcode_fx0a(&mut cpu, 0xF30A);
    assert_eq!(cpu.pc, 0x200);
    key_pressed(&mut cpu, 0xC);
    opcode_fx0a(&mut cpu, 0xF30A);
    assert_eq!(cpu.pc, 0x200);
    assert_eq!(cpu.v[3], 0xC);
}

#[test]
fn keys_latch_and_release() {
    let mut cpu = Chip8::new();
    assert_eq!(get_key_pressed(&cpu), None);
    key_pressed(&mut cpu, 15);
    key_pressed(&mut cpu, 7);
    assert_eq!(get_key_pressed(&cpu), Some(7));
    key_released(&mut cpu, 7);
    assert_eq!(get_key_pressed(&cpu), Some(15));
    key_released(&mut cpu, 15);
    assert_eq!(get_key_pressed(&cpu), None);
}

#[test]
fn key_skips() {
    let mut cpu = Chip8::new();
    cpu.v[1] = 4;
    opcode_ex9e(&mut cpu, 0xE19E);
    assert_eq!(cpu.pc, 0x200);
    opcode_exa1(&mut cpu, 0xE1A1);
    assert_eq!(cpu.pc, 0x202);

    key_pressed(&mut cpu, 4);
    opcode_ex9e(&mut cpu, 0xE19E);
    assert_eq!(cpu.pc, 0x204);
    opcode_exa1(&mut cpu, 0xE1A1);
    assert_eq!(cpu.pc, 0x204);

    cpu.v[1] = 0xFF;
    key_released(&mut cpu, 4);
    opcode_ex9e(&mut cpu, 0xE19E);
    assert_eq!(cpu.pc, 0x204);
}

#[test]
fn return_with_empty_stack_fails() {
    let mut cpu = Chip8::new();
    assert_eq!(opcode_00ee(&mut cpu), Err(Error::StackUnderflow));

    let mut cpu = machine_with(&[0x00, 0xEE]);
    assert_eq!(execute(&mut cpu), Err(Error::StackUnderflow));
    assert_eq!(cpu.pc, 0x200);
}

#[test]
fn unknown_instructions_fail() {
    for (hi, lo) in [(0x80u8, 0x1Fu8), (0xE0, 0xFF), (0xF0, 0xFF), (0x83, 0x48)] {
        let mut cpu = machine_with(&[hi, lo]);
        assert_eq!(
            execute(&mut cpu),
            Err(Error::UnimplementedOpcode((hi as u16) << 8 | lo as u16))
        );
        assert_eq!(cpu.pc, 0x200);
    }
}

#[test]
fn fetch_past_memory_end_fails() {
    let mut cpu = Chip8::new();
    cpu.pc = 0xFFF;
    assert_eq!(get_nexe_opcode(&mut cpu), Err(Error::OutOfBoundsAccess));
    assert_eq!(execute(&mut cpu), Err(Error::OutOfBoundsAccess));
    assert_eq!(cpu.pc, 0xFFF);

    cpu.pc = 0xFFE;
    cpu.memory[0xFFE] = 0x12;
    cpu.memory[0xFFF] = 0x34;
    assert_eq!(get_nexe_opcode(&mut cpu), Ok(0x1234));
    assert_eq!(cpu.pc, 0x1000);
}

#[test]
fn store_and_load_registers() {
    let mut cpu = Chip8::new();
    for k in 0..4 {
        cpu.v[k] = 10 + k as u8;
    }
    cpu.i = 0x400;
    opcode_fx55(&mut cpu, 0xF355).unwrap();
    assert_eq!(&cpu.memory[0x400..0x405], &[10, 11, 12, 13, 0]);
    assert_eq!(cpu.i, 0x404);

    cpu.v = [0; 16];
    cpu.i = 0x400;
    opcode_fx65(&mut cpu, 0xF265).unwrap();
    assert_eq!(&cpu.v[0..4], &[10, 11, 12, 0]);
    assert_eq!(cpu.i, 0x403);

    cpu.i = 0xFF1;
    assert_eq!(opcode_fx55(&mut cpu, 0xFF55), Err(Error::OutOfBoundsAccess));
    assert_eq!(opcode_fx65(&mut cpu, 0xFF65), Err(Error::OutOfBoundsAccess));
    assert_eq!(cpu.i, 0xFF1);
    cpu.i = 0xFF0;
    assert_eq!(opcode_fx55(&mut cpu, 0xFF55), Ok(()));
    assert_eq!(cpu.i, 0x1000);
}

#[test]
fn index_register_arithmetic() {
    let mut cpu = Chip8::new();
    opcode_annn(&mut cpu, 0xA123);
    assert_eq!(cpu.i, 0x123);
    cpu.v[1] = 0x20;
    opcode_fx1e(&mut cpu, 0xF11E);
    assert_eq!(cpu.i, 0x143);
    cpu.v[2] = 0xA;
    opcode_fx29(&mut cpu, 0xF229);
    assert_eq!(cpu.i, 0x82);
    assert_eq!(cpu.memory[0x82], 0xF0);
    cpu.v[2] = 0xFF;
    opcode_fx29(&mut cpu, 0xF229);
    assert_eq!(cpu.i, 0x50 + 0xFF * 5);
}

#[test]
fn jumps() {
    let mut cpu = Chip8::new();
    opcode_0nnn(&mut cpu, 0x0123);
    assert_eq!(cpu.pc, 0x123);
    cpu.v[0] = 0x10;
    opcode_bnnn(&mut cpu, 0xB300);
    assert_eq!(cpu.pc, 0x310);
}

#[test]
fn random_byte_is_masked() {
    let mut cpu = Chip8::new();
    opcode_cxnn_with(&mut cpu, 0xC30F, 0xAB);
    assert_eq!(cpu.v[3], 0x0B);
    cpu.v[4] = 0x77;
    opcode_cxnn(&mut cpu, 0xC400);
    assert_eq!(cpu.v[4], 0);
    for _ in 0..32 {
        opcode_cxnn(&mut cpu, 0xC40F);
        assert!(cpu.v[4] <= 0x0F);
    }
    let mut cpu = machine_with(&[0xC5, 0xF0]);
    execute_with_random(&mut cpu, 0x3C).unwrap();
    assert_eq!(cpu.v[5], 0x30);
}

#[test]
fn shift_into_flag_register() {
    let mut cpu = Chip8::new();
    cpu.v[0xF] = 0x03;
    opcode_8xy6(&mut cpu, 0x8F06);
    assert_eq!(cpu.v[0xF], 0);
}

#[test]
fn timers_count_down_and_restart() {
    let mut cpu = Chip8::new();
    assert_eq!(cpu.delay, 60);
    assert_eq!(cpu.sound, 60);
    delay_timer(&mut cpu);
    assert_eq!(cpu.delay, 59);
    assert_eq!(cpu.sound, 60);
    cpu.v[2] = 1;
    opcode_fx15(&mut cpu, 0xF215);
    delay_timer(&mut cpu);
    opcode_fx07(&mut cpu, 0xF307);
    assert_eq!(cpu.v[3], 0);
    delay_timer(&mut cpu);
    assert_eq!(cpu.delay, 60);
    cpu.sound = 0;
    sound_timer(&mut cpu);
    assert_eq!(cpu.sound, 60);
}

#[test]
fn reset_loads_font_and_program() {
    let mut cpu = Chip8::new();
    cpu.v[3] = 9;
    cpu.i = 0x777;
    cpu.stack.push(0x300);
    cpu.screen[5] = 1;
    cpu_reset(&mut cpu, &[0x12, 0x34]);
    assert_eq!(cpu.memory[0x200], 0x12);
    assert_eq!(cpu.memory[0x201], 0x34);
    assert_eq!(cpu.memory[0x202], 0);
    assert_eq!(&cpu.memory[0x50..0x55], &[0xF0, 0x90, 0x90, 0x90, 0xF0]);
    assert_eq!(&cpu.memory[0x9B..0xA0], &[0xF0, 0x80, 0xF0, 0x80, 0x80]);
    assert_eq!(cpu.memory[0x4F], 0);
    assert_eq!(cpu.memory[0xA0], 0);
    assert_eq!(cpu.pc, 0x200);
    assert_eq!(cpu.i, 0);
    assert_eq!(cpu.v, [0; 16]);
    assert!(cpu.stack.is_empty());
    assert_eq!(view(&cpu, 0, 5), 0);
    assert_eq!(cpu.delay, 60);
}

#[test]
fn reset_drops_what_does_not_fit() {
    let program: Vec<u8> = (0..5000u32).map(|k| (k % 251) as u8).collect();
    let mut cpu = Chip8::new();
    cpu_reset(&mut cpu, &program);
    assert_eq!(cpu.memory[0x200], 0);
    assert_eq!(cpu.memory[0xFFF], ((0xFFF - 0x200) % 251) as u8);
}
