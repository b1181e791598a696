//! The machine value and its instructions.
use vstd::prelude::*;
use crate::error::Error;
use crate::random::random_byte;
use crate::model::{
    dispatch, draw_steps, draw_target, field_n, field_nn, field_nnn, field_x, field_y,
    first_pressed_from, font_glyphs, op_00e0, op_00ee, op_0nnn, op_1nnn, op_2nnn, op_3xnn,
    op_4xnn, op_5xy0, op_6xnn, op_7xnn, op_8xy0, op_8xy1, op_8xy2, op_8xy3, op_8xy4, op_8xy5,
    op_8xy6, op_8xy7, op_8xye, op_9xy0, op_annn, op_bnnn, op_cxnn, op_dxyn, op_ex9e, op_exa1,
    op_fx07, op_fx0a, op_fx15, op_fx18, op_fx1e, op_fx29, op_fx33, op_fx55, op_fx65, outcome,
    pixel_at, pressed_key, reset_state, set_pc, skip_if, step_spec, timer_tick, word_of,
    DrawProgress, FLAG_REGISTER, FONT_BASE, FONT_SIZE, MEMORY_SIZE, MachineState, PROGRAM_START,
    SCREEN_SIZE, TIMER_RESTART,
};


verus! {

/// Every piece of machine state, owned by one value.
pub struct Chip8 {
    /// 4096 bytes of memory: the font below `PROGRAM_START`, the program from it on.
    pub memory: [u8; 4096],
    /// Registers `V0` to `VF`.
    pub v: [u8; 16],
    /// The index register `I`.
    pub i: u16,
    /// The program counter.
    pub pc: u16,
    /// Return addresses of the calls in progress, innermost last.
    pub stack: Vec<u16>,
    /// One byte per pixel, 1 for lit; pixel `(x, y)` at `x * 32 + y`.
    pub screen: [u8; 2048],
    /// The delay timer.
    pub delay: u8,
    /// The sound timer.
    pub sound: u8,
    /// Which of the sixteen keys are held down.
    pub keys: [bool; 16],
    /// Whether the framebuffer changed since it was last polled.
    pub dirty: bool,
}

impl View for Chip8 {
    type V = MachineState;

    open spec fn view(&self) -> MachineState {
        MachineState {
            memory: self.memory@,
            v: self.v@,
            i: self.i,
            pc: self.pc,
            stack: self.stack@,
            screen: self.screen@,
            delay: self.delay,
            sound: self.sound,
            keys: self.keys@,
            dirty: self.dirty,
        }
    }
}

impl Chip8 {
    /// A reset machine with no program loaded.
    pub fn new() -> (r: Chip8)
        ensures
            r@ == reset_state(Seq::empty()),
    {
        let mut m = Chip8 {
            memory: [0u8; 4096],
            v: [0u8; 16],
            i: 0,
            pc: PROGRAM_START,
            stack: Vec::new(),
            screen: [0u8; 2048],
            delay: TIMER_RESTART,
            sound: TIMER_RESTART,
            keys: [false; 16],
            dirty: false,
        };
        set_sprite(&mut m);
        let ghost want = reset_state(Seq::empty());
        assert(m.memory@ =~= want.memory);
        assert(m.v@ =~= want.v);
        assert(m.stack@ =~= want.stack);
        assert(m.screen@ =~= want.screen);
        assert(m.keys@ =~= want.keys);
        m
    }
}

/// Write the font table into its reserved region; nothing else changes.
fn set_sprite(cpu: &mut Chip8)
    ensures
        final(cpu)@ == (MachineState {
            memory: Seq::new(
                MEMORY_SIZE as nat,
                |k: int|
                    if FONT_BASE <= k < FONT_BASE + FONT_SIZE {
                        font_glyphs()[k - FONT_BASE]
                    } else {
                        old(cpu)@.memory[k]
                    },
            ),
            ..old(cpu)@
        }),
{
    let glyphs: [u8; 80] = [
        0xF0, 0x90, 0x90, 0x90, 0xF0,  // 0
        0x20, 0x60, 0x20, 0x20, 0x70,  // 1
        0xF0, 0x10, 0xF0, 0x80, 0xF0,  // 2
        0xF0, 0x10, 0xF0, 0x10, 0xF0,  // 3
        0x90, 0x90, 0xF0, 0x10, 0x10,  // 4
        0xF0, 0x80, 0xF0, 0x10, 0xF0,  // 5
        0xF0, 0x80, 0xF0, 0x90, 0xF0,  // 6
        0xF0, 0x10, 0x22, 0x40, 0x40,  // 7
        0xF0, 0x90, 0xF0, 0x90, 0xF0,  // 8
        0xF0, 0x90, 0xF0, 0x10, 0xF0,  // 9
        0xF0, 0x90, 0xF0, 0x90, 0x90,  // A
        0xE0, 0x90, 0xE0, 0x90, 0xE0,  // B
        0xE0, 0x90, 0xE0, 0x90, 0xE0,  // C
        0xE0, 0x90, 0x90, 0x90, 0xE0,  // D
        0xF0, 0x80, 0xF0, 0x80, 0xF0,  // E
        0xF0, 0x80, 0xF0, 0x80, 0x80,  // F
    ];
    assert(glyphs@ =~= font_glyphs());
    let ghost old_memory = cpu.memory@;
    let mut k: usize = 0;
    while k < FONT_SIZE
        invariant
            k <= FONT_SIZE,
            glyphs@ == font_glyphs(),
            cpu.v == old(cpu).v,
            cpu.i == old(cpu).i,
            cpu.pc == old(cpu).pc,
            cpu.stack == old(cpu).stack,
            cpu.screen == old(cpu).screen,
            cpu.delay == old(cpu).delay,
            cpu.sound == old(cpu).sound,
            cpu.keys == old(cpu).keys,
            cpu.dirty == old(cpu).dirty,
            old_memory == old(cpu).memory@,
            forall|a: int|
                0 <= a < MEMORY_SIZE ==> #[trigger] cpu.memory@[a] == if FONT_BASE <= a < FONT_BASE + k {
                    font_glyphs()[a - FONT_BASE]
                } else {
                    old_memory[a]
                },
        decreases FONT_SIZE - k,
    {
        cpu.memory[FONT_BASE as usize + k] = glyphs[k];
        k = k + 1;
    }
    assert(cpu.memory@ =~= Seq::new(
        MEMORY_SIZE as nat,
        |a: int|
            if FONT_BASE <= a < FONT_BASE + FONT_SIZE {
                font_glyphs()[a - FONT_BASE]
            } else {
                old_memory[a]
            },
    ));
}

/// Load `program` into a freshly reset machine: font table, program image
/// from `PROGRAM_START` on (bytes past the end of memory are dropped),
/// registers, stack, framebuffer and keypad cleared, timers restarted.
pub fn cpu_reset(cpu: &mut Chip8, program: &[u8])
    ensures
        final(cpu)@ == reset_state(program@),
{
    *cpu = Chip8::new();
    let ghost blank = reset_state(Seq::empty());
    let room: usize = MEMORY_SIZE - PROGRAM_START as usize;
    let n: usize = if program.len() < room {
        program.len()
    } else {
        room
    };
    let mut k: usize = 0;
    while k < n
        invariant
            k <= n,
            n <= room,
            room == MEMORY_SIZE - PROGRAM_START,
            n <= program@.len(),
            n == program@.len() || n == room,
            cpu@ == (MachineState { memory: cpu@.memory, ..blank }),
            cpu@.memory.len() == MEMORY_SIZE,
            blank == reset_state(Seq::empty()),
            forall|a: int|
                0 <= a < MEMORY_SIZE ==> #[trigger] cpu.memory@[a] == if PROGRAM_START <= a
                    < PROGRAM_START + k {
                    program@[a - PROGRAM_START]
                } else {
                    blank.memory[a]
                },
        decreases n - k,
    {
        cpu.memory[PROGRAM_START as usize + k] = program[k];
        k = k + 1;
    }
    assert(cpu.memory@ =~= reset_state(program@).memory);
}

/// Register index `X` of an instruction word.
pub fn reg_x(opcode: u16) -> (r: usize)
    ensures
        r == field_x(opcode),
        r < 16,
{
    assert((opcode & 0x0F00u16) >> 8u16 == (opcode / 256u16) % 16u16) by (bit_vector);
    ((opcode & 0x0F00) >> 8) as usize
}

/// Register index `Y` of an instruction word.
pub fn reg_y(opcode: u16) -> (r: usize)
    ensures
        r == field_y(opcode),
        r < 16,
{
    assert((opcode & 0x00F0u16) >> 4u16 == (opcode / 16u16) % 16u16) by (bit_vector);
    ((opcode & 0x00F0) >> 4) as usize
}

/// The low nibble `N` of an instruction word.
pub fn nibble_n(opcode: u16) -> (r: u8)
    ensures
        r == field_n(opcode),
        r < 16,
{
    assert(opcode & 0x000Fu16 == opcode % 16u16) by (bit_vector);
    (opcode & 0x000F) as u8
}

/// The low byte `NN` of an instruction word.
pub fn byte_nn(opcode: u16) -> (r: u8)
    ensures
        r == field_nn(opcode),
{
    assert(opcode & 0x00FFu16 == opcode % 256u16) by (bit_vector);
    (opcode & 0x00FF) as u8
}

/// The address `NNN` of an instruction word.
pub fn addr_nnn(opcode: u16) -> (r: u16)
    ensures
        r == field_nnn(opcode),
        r < 4096,
{
    assert(opcode & 0x0FFFu16 == opcode % 4096u16) by (bit_vector);
    opcode & 0x0FFF
}

/// Move the program counter past the next instruction when `cond` holds.
fn skip_next(cpu: &mut Chip8, cond: bool)
    ensures
        final(cpu)@ == skip_if(old(cpu)@, cond),
{
    if cond {
        cpu.pc = cpu.pc.wrapping_add(2);
    }
}

/// `0NNN`: jump to `NNN`.
pub fn opcode_0nnn(cpu: &mut Chip8, opcode: u16)
    ensures
        final(cpu)@ == op_0nnn(old(cpu)@, opcode),
{
    cpu.pc = addr_nnn(opcode);
}

/// `00E0`: clear the screen.
pub fn opcode_00e0(cpu: &mut Chip8)
    ensures
        final(cpu)@ == op_00e0(old(cpu)@),
{
    let mut k: usize = 0;
    while k < SCREEN_SIZE
        invariant
            k <= SCREEN_SIZE,
            cpu@ == (MachineState { screen: cpu@.screen, ..old(cpu)@ }),
            forall|a: int| 0 <= a < k ==> #[trigger] cpu.screen@[a] == 0,
        decreases SCREEN_SIZE - k,
    {
        cpu.screen[k] = 0;
        k = k + 1;
    }
    cpu.dirty = true;
    assert(cpu.screen@ =~= op_00e0(old(cpu)@).screen);
}

/// `00EE`: return from a subroutine; fails on an empty stack.
pub fn opcode_00ee(cpu: &mut Chip8) -> (r: Result<(), Error>)
    ensures
        outcome(op_00ee(old(cpu)@), old(cpu)@, final(cpu)@, r),
{
    match cpu.stack.pop() {
        Some(addr) => {
            cpu.pc = addr;
            Ok(())
        },
        None => Err(Error::StackUnderflow),
    }
}

/// `1NNN`: jump to `NNN`.
pub fn opcode_1nnn(cpu: &mut Chip8, opcode: u16)
    ensures
        final(cpu)@ == op_1nnn(old(cpu)@, opcode),
{
    cpu.pc = addr_nnn(opcode);
}

/// `2NNN`: call the subroutine at `NNN`.
pub fn opcode_2nnn(cpu: &mut Chip8, opcode: u16)
    ensures
        final(cpu)@ == op_2nnn(old(cpu)@, opcode),
{
    cpu.stack.push(cpu.pc);
    cpu.pc = addr_nnn(opcode);
}

/// `3XNN`: skip the next instruction if `VX == NN`.
pub fn opcode_3xnn(cpu: &mut Chip8, opcode: u16)
    ensures
        final(cpu)@ == op_3xnn(old(cpu)@, opcode),
{
    let x = reg_x(opcode);
    let cond = cpu.v[x] == byte_nn(opcode);
    skip_next(cpu, cond);
}

/// `4XNN`: skip the next instruction if `VX != NN`.
pub fn opcode_4xnn(cpu: &mut Chip8, opcode: u16)
    ensures
        final(cpu)@ == op_4xnn(old(cpu)@, opcode),
{
    let x = reg_x(opcode);
    let cond = cpu.v[x] != byte_nn(opcode);
    skip_next(cpu, cond);
}

/// `5XY0`: skip the next instruction if `VX == VY`.
pub fn opcode_5xy0(cpu: &mut Chip8, opcode: u16)
    ensures
        final(cpu)@ == op_5xy0(old(cpu)@, opcode),
{
    let x = reg_x(opcode);
    let y = reg_y(opcode);
    let cond = cpu.v[x] == cpu.v[y];
    skip_next(cpu, cond);
}

/// `6XNN`: `VX := NN`.
pub fn opcode_6xnn(cpu: &mut Chip8, opcode: u16)
    ensures
        final(cpu)@ == op_6xnn(old(cpu)@, opcode),
{
    let x = reg_x(opcode);
    cpu.v[x] = byte_nn(opcode);
}

/// `7XNN`: `VX := VX + NN`, wrapping, flags untouched.
pub fn opcode_7xnn(cpu: &mut Chip8, opcode: u16)
    ensures
        final(cpu)@ == op_7xnn(old(cpu)@, opcode),
{
    let x = reg_x(opcode);
    cpu.v[x] = cpu.v[x].wrapping_add(byte_nn(opcode));
}

/// `8XY0`: `VX := VY`.
pub fn opcode_8xy0(cpu: &mut Chip8, opcode: u16)
    ensures
        final(cpu)@ == op_8xy0(old(cpu)@, opcode),
{
    let x = reg_x(opcode);
    let y = reg_y(opcode);
    cpu.v[x] = cpu.v[y];
}

/// `8XY1`: `VX := VX | VY`.
pub fn opcode_8xy1(cpu: &mut Chip8, opcode: u16)
    ensures
        final(cpu)@ == op_8xy1(old(cpu)@, opcode),
{
    let x = reg_x(opcode);
    let y = reg_y(opcode);
    cpu.v[x] = cpu.v[x] | cpu.v[y];
}

/// `8XY2`: `VX := VX & VY`.
pub fn opcode_8xy2(cpu: &mut Chip8, opcode: u16)
    ensures
        final(cpu)@ == op_8xy2(old(cpu)@, opcode),
{
    let x = reg_x(opcode);
    let y = reg_y(opcode);
    cpu.v[x] = cpu.v[x] & cpu.v[y];
}

/// `8XY3`: `VX := VX ^ VY`.
pub fn opcode_8xy3(cpu: &mut Chip8, opcode: u16)
    ensures
        final(cpu)@ == op_8xy3(old(cpu)@, opcode),
{
    let x = reg_x(opcode);
    let y = reg_y(opcode);
    cpu.v[x] = cpu.v[x] ^ cpu.v[y];
}

/// `8XY4`: `VX := VX + VY`, wrapping; `VF := 1` on carry, else 0.
pub fn opcode_8xy4(cpu: &mut Chip8, opcode: u16)
    ensures
        final(cpu)@ == op_8xy4(old(cpu)@, opcode),
{
    let x = reg_x(opcode);
    let y = reg_y(opcode);
    let carry = cpu.v[x] as u16 + cpu.v[y] as u16 > 255;
    cpu.v[x] = cpu.v[x].wrapping_add(cpu.v[y]);
    cpu.v[FLAG_REGISTER] = if carry {
        1
    } else {
        0
    };
}

/// `8XY5`: `VX := VX - VY`, wrapping; `VF := 0` on borrow, else 1.
pub fn opcode_8xy5(cpu: &mut Chip8, opcode: u16)
    ensures
        final(cpu)@ == op_8xy5(old(cpu)@, opcode),
{
    let x = reg_x(opcode);
    let y = reg_y(opcode);
    let flag: u8 = if cpu.v[x] < cpu.v[y] {
        0
    } else {
        1
    };
    cpu.v[x] = cpu.v[x].wrapping_sub(cpu.v[y]);
    cpu.v[FLAG_REGISTER] = flag;
}

/// `8XY6`: `VF :=` low bit of `VX`, then `VX := VX >> 1`.
pub fn opcode_8xy6(cpu: &mut Chip8, opcode: u16)
    ensures
        final(cpu)@ == op_8xy6(old(cpu)@, opcode),
{
    let x = reg_x(opcode);
    let vx = cpu.v[x];
    assert(vx & 1u8 == vx % 2) by (bit_vector);
    cpu.v[FLAG_REGISTER] = vx & 0x01;
    let shifted = cpu.v[x];
    assert(shifted >> 1u8 == shifted / 2) by (bit_vector);
    cpu.v[x] = shifted >> 1;
}

/// `8XY7`: `VX := VY - VX`, wrapping; `VF := 0` on borrow, else 1.
pub fn opcode_8xy7(cpu: &mut Chip8, opcode: u16)
    ensures
        final(cpu)@ == op_8xy7(old(cpu)@, opcode),
{
    let x = reg_x(opcode);
    let y = reg_y(opcode);
    let flag: u8 = if cpu.v[x] > cpu.v[y] {
        0
    } else {
        1
    };
    cpu.v[x] = cpu.v[y].wrapping_sub(cpu.v[x]);
    cpu.v[FLAG_REGISTER] = flag;
}

/// `8XYE`: `VF :=` high bit of `VX`, then `VX := VX << 1`, wrapping.
pub fn opcode_8xye(cpu: &mut Chip8, opcode: u16)
    ensures
        final(cpu)@ == op_8xye(old(cpu)@, opcode),
{
    let x = reg_x(opcode);
    let vx = cpu.v[x];
    assert((vx & 0x80u8) >> 7u8 == vx / 128) by (bit_vector);
    cpu.v[FLAG_REGISTER] = (vx & 0x80) >> 7;
    let shifted = cpu.v[x];
    assert(shifted << 1u8 == (shifted * 2) % 256) by (bit_vector);
    cpu.v[x] = shifted << 1;
}

/// `9XY0`: skip the next instruction if `VX != VY`.
pub fn opcode_9xy0(cpu: &mut Chip8, opcode: u16)
    ensures
        final(cpu)@ == op_9xy0(old(cpu)@, opcode),
{
    let x = reg_x(opcode);
    let y = reg_y(opcode);
    let cond = cpu.v[x] != cpu.v[y];
    skip_next(cpu, cond);
}

/// `ANNN`: `I := NNN`.
pub fn opcode_annn(cpu: &mut Chip8, opcode: u16)
    ensures
        final(cpu)@ == op_annn(old(cpu)@, opcode),
{
    cpu.i = addr_nnn(opcode);
}

/// `BNNN`: jump to `V0 + NNN`.
pub fn opcode_bnnn(cpu: &mut Chip8, opcode: u16)
    ensures
        final(cpu)@ == op_bnnn(old(cpu)@, opcode),
{
    cpu.pc = cpu.v[0] as u16 + addr_nnn(opcode);
}

/// `CXNN` with the random byte already drawn: `VX := random & NN`.
pub fn opcode_cxnn_with(cpu: &mut Chip8, opcode: u16, random: u8)
    ensures
        final(cpu)@ == op_cxnn(old(cpu)@, opcode, random),
{
    let x = reg_x(opcode);
    cpu.v[x] = random & byte_nn(opcode);
}

/// `CXNN`: `VX :=` a random byte masked with `NN`.
pub fn opcode_cxnn(cpu: &mut Chip8, opcode: u16)
    ensures
        exists|random: u8| final(cpu)@ == op_cxnn(old(cpu)@, opcode, random),
{
    let random = random_byte();
    opcode_cxnn_with(cpu, opcode, random);
}

/// `DXYN`: draw the `N`-row sprite at `I` at `(VX, VY)`, XOR-ing each set bit
/// onto the framebuffer (coordinates past the edge are held at the edge);
/// `VF := 1` if a lit pixel was turned off, else 0. Fails when a sprite row
/// lies outside memory.
pub fn opcode_dxyn(cpu: &mut Chip8, opcode: u16) -> (r: Result<(), Error>)
    ensures
        outcome(op_dxyn(old(cpu)@, opcode), old(cpu)@, final(cpu)@, r),
{
    let x = reg_x(opcode);
    let y = reg_y(opcode);
    let n = nibble_n(opcode);
    if n > 0 && cpu.i as usize + n as usize > MEMORY_SIZE {
        return Err(Error::OutOfBoundsAccess);
    }
    let cx = cpu.v[x];
    let cy = cpu.v[y];
    let ghost s0 = cpu@;
    let ghost sprite = s0.memory.subrange(s0.i as int, s0.i + n);
    let mut collision = false;
    let mut toggled = false;
    let mut row: u8 = 0;
    while row < n
        invariant
            row <= n,
            n < 16,
            n > 0 ==> s0.i + n <= MEMORY_SIZE,
            s0.memory.len() == MEMORY_SIZE,
            sprite == s0.memory.subrange(s0.i as int, s0.i + n),
            cpu@ == (MachineState { screen: cpu@.screen, ..s0 }),
            cpu@.screen.len() == SCREEN_SIZE,
            draw_steps(s0.screen, sprite, cx, cy, (row * 8) as nat) == (DrawProgress {
                screen: cpu@.screen,
                collision,
                toggled,
            }),
        decreases n - row,
    {
        let data = cpu.memory[cpu.i as usize + row as usize];
        assert(data == sprite[row as int]);
        let mut col: u8 = 0;
        while col < 8
            invariant
                row < n,
                col <= 8,
                data == sprite[row as int],
                cpu@ == (MachineState { screen: cpu@.screen, ..s0 }),
                cpu@.screen.len() == SCREEN_SIZE,
                draw_steps(s0.screen, sprite, cx, cy, (row * 8 + col) as nat) == (DrawProgress {
                    screen: cpu@.screen,
                    collision,
                    toggled,
                }),
            decreases 8 - col,
        {
            let ghost k = (row * 8 + col) as nat;
            assert(k / 8 == row as int && k % 8 == col as int);
            if (data >> (7 - col)) & 1 == 1 {
                let mut px: usize = cx as usize + col as usize;
                if px > 63 {
                    px = 63;
                }
                let mut py: usize = cy as usize + row as usize;
                if py > 31 {
                    py = 31;
                }
                let idx = px * 32 + py;
                assert(idx == draw_target(cx, cy, row as int, col as int));
                if cpu.screen[idx] == 1 {
                    collision = true;
                }
                cpu.screen[idx] = cpu.screen[idx] ^ 1;
                toggled = true;
            }
            col = col + 1;
        }
        row = row + 1;
    }
    cpu.v[FLAG_REGISTER] = if collision {
        1
    } else {
        0
    };
    if toggled {
        cpu.dirty = true;
    }
    Ok(())
}

/// The lowest-indexed key that is held down, if any.
pub fn get_key_pressed(cpu: &Chip8) -> (r: Option<u8>)
    ensures
        r == pressed_key(cpu.keys@),
{
    let mut k: usize = 0;
    while k < 16
        invariant
            k <= 16,
            pressed_key(cpu.keys@) == first_pressed_from(cpu.keys@, k as int),
        decreases 16 - k,
    {
        if cpu.keys[k] {
            return Some(k as u8);
        }
        k = k + 1;
    }
    None
}

/// `EX9E`: skip the next instruction if the pressed key is `VX`.
pub fn opcode_ex9e(cpu: &mut Chip8, opcode: u16)
    ensures
        final(cpu)@ == op_ex9e(old(cpu)@, opcode),
{
    let x = reg_x(opcode);
    let cond = match get_key_pressed(cpu) {
        Some(key) => key == cpu.v[x],
        None => false,
    };
    skip_next(cpu, cond);
}

/// `EXA1`: skip the next instruction unless the pressed key is `VX`.
pub fn opcode_exa1(cpu: &mut Chip8, opcode: u16)
    ensures
        final(cpu)@ == op_exa1(old(cpu)@, opcode),
{
    let x = reg_x(opcode);
    let cond = match get_key_pressed(cpu) {
        Some(key) => key != cpu.v[x],
        None => true,
    };
    skip_next(cpu, cond);
}

/// `FX07`: `VX :=` the delay timer.
pub fn opcode_fx07(cpu: &mut Chip8, opcode: u16)
    ensures
        final(cpu)@ == op_fx07(old(cpu)@, opcode),
{
    let x = reg_x(opcode);
    cpu.v[x] = cpu.delay;
}

/// `FX0A`: `VX :=` the pressed key; with none pressed the counter steps back
/// so that this instruction runs again on the next step.
pub fn opcode_fx0a(cpu: &mut Chip8, opcode: u16)
    ensures
        final(cpu)@ == op_fx0a(old(cpu)@, opcode),
{
    let x = reg_x(opcode);
    match get_key_pressed(cpu) {
        Some(key) => {
            cpu.v[x] = key;
        },
        None => {
            cpu.pc = cpu.pc.wrapping_sub(2);
        },
    }
}

/// `FX15`: the delay timer `:= VX`.
pub fn opcode_fx15(cpu: &mut Chip8, opcode: u16)
    ensures
        final(cpu)@ == op_fx15(old(cpu)@, opcode),
{
    let x = reg_x(opcode);
    cpu.delay = cpu.v[x];
}

/// `FX18`: the sound timer `:= VX`.
pub fn opcode_fx18(cpu: &mut Chip8, opcode: u16)
    ensures
        final(cpu)@ == op_fx18(old(cpu)@, opcode),
{
    let x = reg_x(opcode);
    cpu.sound = cpu.v[x];
}

/// `FX1E`: `I := I + VX`.
pub fn opcode_fx1e(cpu: &mut Chip8, opcode: u16)
    ensures
        final(cpu)@ == op_fx1e(old(cpu)@, opcode),
{
    let x = reg_x(opcode);
    cpu.i = cpu.i.wrapping_add(cpu.v[x] as u16);
}

/// `FX29`: `I :=` the address of the font glyph for digit `VX`.
pub fn opcode_fx29(cpu: &mut Chip8, opcode: u16)
    ensures
        final(cpu)@ == op_fx29(old(cpu)@, opcode),
{
    let x = reg_x(opcode);
    cpu.i = FONT_BASE + cpu.v[x] as u16 * 5;
}

/// `FX33`: hundreds, tens and units of `VX` into `memory[I]`, `[I+1]`, `[I+2]`.
pub fn opcode_fx33(cpu: &mut Chip8, opcode: u16) -> (r: Result<(), Error>)
    ensures
        outcome(op_fx33(old(cpu)@, opcode), old(cpu)@, final(cpu)@, r),
{
    let x = reg_x(opcode);
    if cpu.i as usize + 3 > MEMORY_SIZE {
        return Err(Error::OutOfBoundsAccess);
    }
    let value = cpu.v[x];
    let at = cpu.i as usize;
    cpu.memory[at] = value / 100;
    cpu.memory[at + 1] = (value / 10) % 10;
    cpu.memory[at + 2] = value % 10;
    Ok(())
}

/// `FX55`: store `V0..=VX` in memory from `I` on; `I` moves past them.
pub fn opcode_fx55(cpu: &mut Chip8, opcode: u16) -> (r: Result<(), Error>)
    ensures
        outcome(op_fx55(old(cpu)@, opcode), old(cpu)@, final(cpu)@, r),
{
    let x = reg_x(opcode);
    if cpu.i as usize + x + 1 > MEMORY_SIZE {
        return Err(Error::OutOfBoundsAccess);
    }
    let ghost s0 = cpu@;
    let base = cpu.i as usize;
    let mut k: usize = 0;
    while k <= x
        invariant
            x < 16,
            k <= x + 1,
            base == s0.i,
            base + x + 1 <= MEMORY_SIZE,
            cpu@ == (MachineState { memory: cpu@.memory, ..s0 }),
            cpu@.memory.len() == MEMORY_SIZE,
            s0.v.len() == 16,
            forall|a: int|
                0 <= a < MEMORY_SIZE ==> #[trigger] cpu.memory@[a] == if base <= a < base + k {
                    s0.v[a - base]
                } else {
                    s0.memory[a]
                },
        decreases x + 1 - k,
    {
        cpu.memory[base + k] = cpu.v[k];
        k = k + 1;
    }
    cpu.i = (base + x + 1) as u16;
    assert(cpu.memory@ =~= op_fx55(s0, opcode).unwrap().memory);
    Ok(())
}

/// `FX65`: load `V0..=VX` from memory from `I` on; `I` moves past them.
pub fn opcode_fx65(cpu: &mut Chip8, opcode: u16) -> (r: Result<(), Error>)
    ensures
        outcome(op_fx65(old(cpu)@, opcode), old(cpu)@, final(cpu)@, r),
{
    let x = reg_x(opcode);
    if cpu.i as usize + x + 1 > MEMORY_SIZE {
        return Err(Error::OutOfBoundsAccess);
    }
    let ghost s0 = cpu@;
    let base = cpu.i as usize;
    let mut k: usize = 0;
    while k <= x
        invariant
            x < 16,
            k <= x + 1,
            base == s0.i,
            base + x + 1 <= MEMORY_SIZE,
            cpu@ == (MachineState { v: cpu@.v, ..s0 }),
            cpu@.v.len() == 16,
            s0.memory.len() == MEMORY_SIZE,
            forall|a: int|
                0 <= a < 16 ==> #[trigger] cpu.v@[a] == if a < k {
                    s0.memory[base + a]
                } else {
                    s0.v[a]
                },
        decreases x + 1 - k,
    {
        cpu.v[k] = cpu.memory[base + k];
        k = k + 1;
    }
    cpu.i = (base + x + 1) as u16;
    assert(cpu.v@ =~= op_fx65(s0, opcode).unwrap().v);
    Ok(())
}

/// One 60 Hz tick of the delay timer: down by one, or back to
/// `TIMER_RESTART` once it has reached zero (the counter restarts rather than
/// holding at zero).
pub fn delay_timer(cpu: &mut Chip8)
    ensures
        final(cpu)@ == (MachineState { delay: timer_tick(old(cpu).delay), ..old(cpu)@ }),
{
    cpu.delay = if cpu.delay == 0 {
        TIMER_RESTART
    } else {
        cpu.delay - 1
    };
}

/// One 60 Hz tick of the sound timer, restarting as the delay timer does.
pub fn sound_timer(cpu: &mut Chip8)
    ensures
        final(cpu)@ == (MachineState { sound: timer_tick(old(cpu).sound), ..old(cpu)@ }),
{
    cpu.sound = if cpu.sound == 0 {
        TIMER_RESTART
    } else {
        cpu.sound - 1
    };
}

/// Mark key `key_code` as held down.
pub fn key_pressed(cpu: &mut Chip8, key_code: u8)
    requires
        key_code < 16,
    ensures
        final(cpu)@ == (MachineState {
            keys: old(cpu)@.keys.update(key_code as int, true),
            ..old(cpu)@
        }),
{
    cpu.keys[key_code as usize] = true;
}

/// Mark key `key_code` as released.
pub fn key_released(cpu: &mut Chip8, key_code: u8)
    requires
        key_code < 16,
    ensures
        final(cpu)@ == (MachineState {
            keys: old(cpu)@.keys.update(key_code as int, false),
            ..old(cpu)@
        }),
{
    cpu.keys[key_code as usize] = false;
}

/// Pixel `(x, y)` of the framebuffer.
pub fn view(cpu: &Chip8, x: usize, y: usize) -> (r: u8)
    requires
        x < 64,
        y < 32,
    ensures
        r == pixel_at(cpu@, x as int, y as int),
{
    cpu.screen[x * 32 + y]
}

/// Whether the framebuffer changed since the last call; clears the flag.
pub fn get_clear_flag(cpu: &mut Chip8) -> (r: bool)
    ensures
        r == old(cpu).dirty,
        final(cpu)@ == (MachineState { dirty: false, ..old(cpu)@ }),
{
    let flag = cpu.dirty;
    cpu.dirty = false;
    flag
}

/// Fetch the instruction word at the program counter (high byte first) and
/// move the counter past it. Fails, changing nothing, when the word does not
/// lie in memory.
pub fn get_nexe_opcode(cpu: &mut Chip8) -> (r: Result<u16, Error>)
    ensures
        old(cpu).pc + 1 >= MEMORY_SIZE ==> r == Err::<u16, Error>(Error::OutOfBoundsAccess)
            && final(cpu)@ == old(cpu)@,
        old(cpu).pc + 1 < MEMORY_SIZE ==> r == Ok::<u16, Error>(
            word_of(old(cpu)@.memory[old(cpu).pc as int], old(cpu)@.memory[old(cpu).pc + 1]),
        ) && final(cpu)@ == set_pc(old(cpu)@, (old(cpu).pc + 2) as u16),
{
    let pc = cpu.pc as usize;
    if pc + 1 >= MEMORY_SIZE {
        return Err(Error::OutOfBoundsAccess);
    }
    let hi = cpu.memory[pc];
    let lo = cpu.memory[pc + 1];
    cpu.pc = cpu.pc + 2;
    Ok(hi as u16 * 256 + lo as u16)
}

/// Run the decoded instruction `opcode` (the counter already past it), with
/// `random` as the byte that `CXNN` uses.
fn run_instruction(cpu: &mut Chip8, opcode: u16, random: u8) -> (r: Result<(), Error>)
    ensures
        outcome(dispatch(old(cpu)@, opcode, random), old(cpu)@, final(cpu)@, r),
{
    let family = opcode / 4096;
    let nn = byte_nn(opcode);
    let n = nibble_n(opcode);
    if family == 0 {
        if nn == 0xE0 {
            opcode_00e0(cpu);
        } else if nn == 0xEE {
            return opcode_00ee(cpu);
        } else {
            opcode_0nnn(cpu, opcode);
        }
    } else if family == 1 {
        opcode_1nnn(cpu, opcode);
    } else if family == 2 {
        opcode_2nnn(cpu, opcode);
    } else if family == 3 {
        opcode_3xnn(cpu, opcode);
    } else if family == 4 {
        opcode_4xnn(cpu, opcode);
    } else if family == 5 {
        opcode_5xy0(cpu, opcode);
    } else if family == 6 {
        opcode_6xnn(cpu, opcode);
    } else if family == 7 {
        opcode_7xnn(cpu, opcode);
    } else if family == 8 {
        if n == 0 {
            opcode_8xy0(cpu, opcode);
        } else if n == 1 {
            opcode_8xy1(cpu, opcode);
        } else if n == 2 {
            opcode_8xy2(cpu, opcode);
        } else if n == 3 {
            opcode_8xy3(cpu, opcode);
        } else if n == 4 {
            opcode_8xy4(cpu, opcode);
        } else if n == 5 {
            opcode_8xy5(cpu, opcode);
        } else if n == 6 {
            opcode_8xy6(cpu, opcode);
        } else if n == 7 {
            opcode_8xy7(cpu, opcode);
        } else if n == 0xE {
            opcode_8xye(cpu, opcode);
        } else {
            return Err(Error::UnimplementedOpcode(opcode));
        }
    } else if family == 9 {
        opcode_9xy0(cpu, opcode);
    } else if family == 0xA {
        opcode_annn(cpu, opcode);
    } else if family == 0xB {
        opcode_bnnn(cpu, opcode);
    } else if family == 0xC {
        opcode_cxnn_with(cpu, opcode, random);
    } else if family == 0xD {
        return opcode_dxyn(cpu, opcode);
    } else if family == 0xE {
        if nn == 0x9E {
            opcode_ex9e(cpu, opcode);
        } else if nn == 0xA1 {
            opcode_exa1(cpu, opcode);
        } else {
            return Err(Error::UnimplementedOpcode(opcode));
        }
    } else {
        if nn == 0x07 {
            opcode_fx07(cpu, opcode);
        } else if nn == 0x0A {
            opcode_fx0a(cpu, opcode);
        } else if nn == 0x15 {
            opcode_fx15(cpu, opcode);
        } else if nn == 0x18 {
            opcode_fx18(cpu, opcode);
        } else if nn == 0x1E {
            opcode_fx1e(cpu, opcode);
        } else if nn == 0x29 {
            opcode_fx29(cpu, opcode);
        } else if nn == 0x33 {
            return opcode_fx33(cpu, opcode);
        } else if nn == 0x55 {
            return opcode_fx55(cpu, opcode);
        } else if nn == 0x65 {
            return opcode_fx65(cpu, opcode);
        } else {
            return Err(Error::UnimplementedOpcode(opcode));
        }
    }
    Ok(())
}

/// One fetch-decode-execute cycle, with `random` as the byte that `CXNN`
/// uses. A fault leaves the machine exactly as it was before the call.
pub fn execute_with_random(cpu: &mut Chip8, random: u8) -> (r: Result<(), Error>)
    ensures
        outcome(step_spec(old(cpu)@, random), old(cpu)@, final(cpu)@, r),
{
    let pc = cpu.pc;
    let opcode = match get_nexe_opcode(cpu) {
        Ok(op) => op,
        Err(e) => return Err(e),
    };
    let r = run_instruction(cpu, opcode, random);
    if r.is_err() {
        cpu.pc = pc;
    }
    r
}

/// One fetch-decode-execute cycle. `CXNN` draws its byte at random; every
/// other instruction does what `execute_with_random` does for any byte.
pub fn execute(cpu: &mut Chip8) -> (r: Result<(), Error>)
    ensures
        exists|random: u8| outcome(step_spec(old(cpu)@, random), old(cpu)@, final(cpu)@, r),
{
    let random = random_byte();
    execute_with_random(cpu, random)
}

} // verus!
