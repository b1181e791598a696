//! The machine as the instruction set sees it, and what each instruction
//! does to it.
use vstd::prelude::*;
use crate::error::Error;

verus! {

/// Bytes of addressable memory.
pub const MEMORY_SIZE: usize = 4096;
/// Where a program image is loaded and where execution starts.
pub const PROGRAM_START: u16 = 0x200;
/// Address of the first font glyph.
pub const FONT_BASE: u16 = 0x50;
/// Bytes of the font table: sixteen glyphs of five rows each.
pub const FONT_SIZE: usize = 80;
/// Framebuffer width in pixels.
pub const SCREEN_WIDTH: usize = 64;
/// Framebuffer height in pixels.
pub const SCREEN_HEIGHT: usize = 32;
/// Number of pixels; pixel `(x, y)` is stored at `x * SCREEN_HEIGHT + y`.
pub const SCREEN_SIZE: usize = 2048;
/// Value a timer is loaded with at reset, and again on the tick after it reaches zero.
pub const TIMER_RESTART: u8 = 60;
/// Index of the flags register VF.
pub const FLAG_REGISTER: usize = 15;

/// Abstract machine state.
pub struct MachineState {
    pub memory: Seq<u8>,
    pub v: Seq<u8>,
    pub i: u16,
    pub pc: u16,
    pub stack: Seq<u16>,
    pub screen: Seq<u8>,
    pub delay: u8,
    pub sound: u8,
    pub keys: Seq<bool>,
    pub dirty: bool,
}

/// The sizes that every machine state has.
pub open spec fn wf_state(s: MachineState) -> bool {
    &&& s.memory.len() == MEMORY_SIZE
    &&& s.v.len() == 16
    &&& s.screen.len() == SCREEN_SIZE
    &&& s.keys.len() == 16
}

// ---- operand fields -------------------------------------------------------

/// `X`: bits 8..12 of the instruction word.
pub open spec fn field_x(op: u16) -> int {
    (op as int / 256) % 16
}

/// `Y`: bits 4..8 of the instruction word.
pub open spec fn field_y(op: u16) -> int {
    (op as int / 16) % 16
}

/// `N`: the low nibble.
pub open spec fn field_n(op: u16) -> int {
    op as int % 16
}

/// `NN`: the low byte.
pub open spec fn field_nn(op: u16) -> u8 {
    (op as int % 256) as u8
}

/// `NNN`: the low twelve bits.
pub open spec fn field_nnn(op: u16) -> u16 {
    (op as int % 4096) as u16
}

/// The instruction word formed from the byte at an address and the byte after it.
pub open spec fn word_of(hi: u8, lo: u8) -> u16 {
    (hi as int * 256 + lo as int) as u16
}

// ---- small helpers -----------------------------------------------------------

/// Byte arithmetic modulo 256.
pub open spec fn wrap_u8(n: int) -> u8 {
    (n % 256) as u8
}

/// Where pixel `(x, y)` is stored.
pub open spec fn pixel_index(x: int, y: int) -> int {
    x * SCREEN_HEIGHT as int + y
}

/// Pixel `(x, y)` of a state.
pub open spec fn pixel_at(s: MachineState, x: int, y: int) -> u8 {
    s.screen[pixel_index(x, y)]
}

pub open spec fn set_v(s: MachineState, x: int, val: u8) -> MachineState {
    MachineState { v: s.v.update(x, val), ..s }
}

pub open spec fn set_pc(s: MachineState, pc: u16) -> MachineState {
    MachineState { pc, ..s }
}

/// The address two bytes further on (the counter is a 16-bit word).
pub open spec fn pc_skip(pc: u16) -> u16 {
    ((pc as int + 2) % 65536) as u16
}

/// The address two bytes back (the counter is a 16-bit word).
pub open spec fn pc_back(pc: u16) -> u16 {
    ((pc as int + 65534) % 65536) as u16
}

/// Skip the next instruction when `cond` holds.
pub open spec fn skip_if(s: MachineState, cond: bool) -> MachineState {
    if cond {
        set_pc(s, pc_skip(s.pc))
    } else {
        s
    }
}

/// The lowest pressed key at index `from` or above.
pub open spec fn first_pressed_from(keys: Seq<bool>, from: int) -> Option<u8>
    decreases 16 - from,
{
    if from >= 16 || from < 0 {
        None
    } else if keys[from] {
        Some(from as u8)
    } else {
        first_pressed_from(keys, from + 1)
    }
}

/// The lowest-indexed pressed key, if any key is pressed.
pub open spec fn pressed_key(keys: Seq<bool>) -> Option<u8> {
    first_pressed_from(keys, 0)
}

/// One periodic tick of a countdown timer: down by one, or back to the
/// restart value once it has reached zero.
pub open spec fn timer_tick(t: u8) -> u8 {
    if t == 0 {
        TIMER_RESTART
    } else {
        (t - 1) as u8
    }
}

/// The sixteen hexadecimal digit glyphs, five rows each.
pub open spec fn font_glyphs() -> Seq<u8> {
    seq![
        0xF0u8, 0x90, 0x90, 0x90, 0xF0,
        0x20, 0x60, 0x20, 0x20, 0x70,
        0xF0, 0x10, 0xF0, 0x80, 0xF0,
        0xF0, 0x10, 0xF0, 0x10, 0xF0,
        0x90, 0x90, 0xF0, 0x10, 0x10,
        0xF0, 0x80, 0xF0, 0x10, 0xF0,
        0xF0, 0x80, 0xF0, 0x90, 0xF0,
        0xF0, 0x10, 0x22, 0x40, 0x40,
        0xF0, 0x90, 0xF0, 0x90, 0xF0,
        0xF0, 0x90, 0xF0, 0x10, 0xF0,
        0xF0, 0x90, 0xF0, 0x90, 0x90,
        0xE0, 0x90, 0xE0, 0x90, 0xE0,
        0xE0, 0x90, 0xE0, 0x90, 0xE0,
        0xE0, 0x90, 0x90, 0x90, 0xE0,
        0xF0, 0x80, 0xF0, 0x80, 0xF0,
        0xF0, 0x80, 0xF0, 0x80, 0x80,
    ]
}

/// A freshly reset machine running `program`: the font below the program
/// area, the program (as much as fits) from `PROGRAM_START` on, all else zero,
/// timers at their restart value.
pub open spec fn reset_state(program: Seq<u8>) -> MachineState {
    MachineState {
        memory: Seq::new(
            MEMORY_SIZE as nat,
            |k: int|
                if FONT_BASE <= k < FONT_BASE + FONT_SIZE {
                    font_glyphs()[k - FONT_BASE]
                } else if PROGRAM_START <= k < PROGRAM_START + program.len() {
                    program[k - PROGRAM_START]
                } else {
                    0u8
                },
        ),
        v: Seq::new(16, |k: int| 0u8),
        i: 0,
        pc: PROGRAM_START,
        stack: Seq::empty(),
        screen: Seq::new(SCREEN_SIZE as nat, |k: int| 0u8),
        delay: TIMER_RESTART,
        sound: TIMER_RESTART,
        keys: Seq::new(16, |k: int| false),
        dirty: false,
    }
}

// ---- drawing -------------------------------------------------------------------

/// Whether column `col` (0 = leftmost) of a sprite row is set.
pub open spec fn sprite_bit(row: u8, col: int) -> bool {
    (row >> ((7 - col) as u8)) & 1u8 == 1u8
}

/// A coordinate past the last column or row is held at the edge.
pub open spec fn clamp_to(c: int, max: int) -> int {
    if c > max {
        max
    } else {
        c
    }
}

/// The pixel that column `col` of sprite row `row` lands on.
pub open spec fn draw_target(cx: u8, cy: u8, row: int, col: int) -> int {
    pixel_index(
        clamp_to(cx + col, SCREEN_WIDTH as int - 1),
        clamp_to(cy + row, SCREEN_HEIGHT as int - 1),
    )
}

/// A framebuffer part way through a sprite, with whether a set pixel was
/// turned off and whether any pixel was toggled so far.
pub struct DrawProgress {
    pub screen: Seq<u8>,
    pub collision: bool,
    pub toggled: bool,
}

/// The framebuffer after the first `k` sprite bits (row by row, most
/// significant bit first) have been XOR-ed onto `screen`.
pub open spec fn draw_steps(screen: Seq<u8>, sprite: Seq<u8>, cx: u8, cy: u8, k: nat) -> DrawProgress
    decreases k,
{
    if k == 0 {
        DrawProgress { screen, collision: false, toggled: false }
    } else {
        let p = draw_steps(screen, sprite, cx, cy, (k - 1) as nat);
        let row = (k - 1) / 8;
        let col = (k - 1) % 8;
        if sprite_bit(sprite[row], col) {
            let idx = draw_target(cx, cy, row, col);
            DrawProgress {
                screen: p.screen.update(idx, p.screen[idx] ^ 1u8),
                collision: p.collision || p.screen[idx] == 1,
                toggled: true,
            }
        } else {
            p
        }
    }
}

// ---- the instructions -----------------------------------------------------------

/// `0NNN`: jump to `NNN`.
pub open spec fn op_0nnn(s: MachineState, op: u16) -> MachineState {
    set_pc(s, field_nnn(op))
}

/// `00E0`: clear the framebuffer and mark it changed.
pub open spec fn op_00e0(s: MachineState) -> MachineState {
    MachineState { screen: Seq::new(SCREEN_SIZE as nat, |k: int| 0u8), dirty: true, ..s }
}

/// `00EE`: return to the address on top of the stack.
pub open spec fn op_00ee(s: MachineState) -> Result<MachineState, Error> {
    if s.stack.len() == 0 {
        Err(Error::StackUnderflow)
    } else {
        Ok(MachineState { pc: s.stack.last(), stack: s.stack.drop_last(), ..s })
    }
}

/// `1NNN`: jump to `NNN`.
pub open spec fn op_1nnn(s: MachineState, op: u16) -> MachineState {
    set_pc(s, field_nnn(op))
}

/// `2NNN`: push the return address and jump to `NNN`.
pub open spec fn op_2nnn(s: MachineState, op: u16) -> MachineState {
    MachineState { stack: s.stack.push(s.pc), pc: field_nnn(op), ..s }
}

/// `3XNN`: skip if `VX == NN`.
pub open spec fn op_3xnn(s: MachineState, op: u16) -> MachineState {
    skip_if(s, s.v[field_x(op)] == field_nn(op))
}

/// `4XNN`: skip if `VX != NN`.
pub open spec fn op_4xnn(s: MachineState, op: u16) -> MachineState {
    skip_if(s, s.v[field_x(op)] != field_nn(op))
}

/// `5XY0`: skip if `VX == VY`.
pub open spec fn op_5xy0(s: MachineState, op: u16) -> MachineState {
    skip_if(s, s.v[field_x(op)] == s.v[field_y(op)])
}

/// `6XNN`: `VX := NN`.
pub open spec fn op_6xnn(s: MachineState, op: u16) -> MachineState {
    set_v(s, field_x(op), field_nn(op))
}

/// `7XNN`: `VX := VX + NN` modulo 256, flags untouched.
pub open spec fn op_7xnn(s: MachineState, op: u16) -> MachineState {
    set_v(s, field_x(op), wrap_u8(s.v[field_x(op)] + field_nn(op)))
}

/// `8XY0`: `VX := VY`.
pub open spec fn op_8xy0(s: MachineState, op: u16) -> MachineState {
    set_v(s, field_x(op), s.v[field_y(op)])
}

/// `8XY1`: `VX := VX | VY`.
pub open spec fn op_8xy1(s: MachineState, op: u16) -> MachineState {
    set_v(s, field_x(op), s.v[field_x(op)] | s.v[field_y(op)])
}

/// `8XY2`: `VX := VX & VY`.
pub open spec fn op_8xy2(s: MachineState, op: u16) -> MachineState {
    set_v(s, field_x(op), s.v[field_x(op)] & s.v[field_y(op)])
}

/// `8XY3`: `VX := VX ^ VY`.
pub open spec fn op_8xy3(s: MachineState, op: u16) -> MachineState {
    set_v(s, field_x(op), s.v[field_x(op)] ^ s.v[field_y(op)])
}

/// `8XY4`: `VX := VX + VY` modulo 256, then `VF := 1` on carry, else 0.
pub open spec fn op_8xy4(s: MachineState, op: u16) -> MachineState {
    let sum = s.v[field_x(op)] + s.v[field_y(op)];
    set_v(set_v(s, field_x(op), wrap_u8(sum)), FLAG_REGISTER as int, if sum > 255 { 1 } else { 0 })
}

/// `8XY5`: `VX := VX - VY` modulo 256, then `VF := 0` on borrow, else 1.
pub open spec fn op_8xy5(s: MachineState, op: u16) -> MachineState {
    let vx = s.v[field_x(op)];
    let vy = s.v[field_y(op)];
    set_v(set_v(s, field_x(op), wrap_u8(vx - vy)), FLAG_REGISTER as int, if vx < vy { 0 } else { 1 })
}

/// `8XY6`: `VF := VX & 1`, then `VX := VX >> 1`.
pub open spec fn op_8xy6(s: MachineState, op: u16) -> MachineState {
    let t = set_v(s, FLAG_REGISTER as int, s.v[field_x(op)] % 2);
    set_v(t, field_x(op), t.v[field_x(op)] / 2)
}

/// `8XY7`: `VX := VY - VX` modulo 256, then `VF := 0` on borrow, else 1.
pub open spec fn op_8xy7(s: MachineState, op: u16) -> MachineState {
    let vx = s.v[field_x(op)];
    let vy = s.v[field_y(op)];
    set_v(set_v(s, field_x(op), wrap_u8(vy - vx)), FLAG_REGISTER as int, if vx > vy { 0 } else { 1 })
}

/// `8XYE`: `VF := VX >> 7`, then `VX := VX << 1` modulo 256.
pub open spec fn op_8xye(s: MachineState, op: u16) -> MachineState {
    let t = set_v(s, FLAG_REGISTER as int, s.v[field_x(op)] / 128);
    set_v(t, field_x(op), wrap_u8(t.v[field_x(op)] * 2))
}

/// `9XY0`: skip if `VX != VY`.
pub open spec fn op_9xy0(s: MachineState, op: u16) -> MachineState {
    skip_if(s, s.v[field_x(op)] != s.v[field_y(op)])
}

/// `ANNN`: `I := NNN`.
pub open spec fn op_annn(s: MachineState, op: u16) -> MachineState {
    MachineState { i: field_nnn(op), ..s }
}

/// `BNNN`: jump to `V0 + NNN`.
pub open spec fn op_bnnn(s: MachineState, op: u16) -> MachineState {
    set_pc(s, (s.v[0] + field_nnn(op)) as u16)
}

/// `CXNN`: `VX := r & NN` for the random byte `r`.
pub open spec fn op_cxnn(s: MachineState, op: u16, r: u8) -> MachineState {
    set_v(s, field_x(op), r & field_nn(op))
}

/// `DXYN`: XOR the `N`-row sprite at `I` onto the framebuffer at `(VX, VY)`;
/// `VF` records a collision. Fails when a sprite row lies outside memory.
pub open spec fn op_dxyn(s: MachineState, op: u16) -> Result<MachineState, Error> {
    let n = field_n(op);
    if n > 0 && s.i + n > MEMORY_SIZE {
        Err(Error::OutOfBoundsAccess)
    } else {
        let d = draw_steps(
            s.screen,
            s.memory.subrange(s.i as int, s.i + n),
            s.v[field_x(op)],
            s.v[field_y(op)],
            (n * 8) as nat,
        );
        Ok(
            MachineState {
                screen: d.screen,
                v: s.v.update(FLAG_REGISTER as int, if d.collision { 1 } else { 0 }),
                dirty: s.dirty || d.toggled,
                ..s
            },
        )
    }
}

/// `EX9E`: skip if the pressed key is `VX`.
pub open spec fn op_ex9e(s: MachineState, op: u16) -> MachineState {
    skip_if(s, pressed_key(s.keys) == Some(s.v[field_x(op)]))
}

/// `EXA1`: skip unless the pressed key is `VX`.
pub open spec fn op_exa1(s: MachineState, op: u16) -> MachineState {
    skip_if(s, pressed_key(s.keys) != Some(s.v[field_x(op)]))
}

/// `FX07`: `VX := delay timer`.
pub open spec fn op_fx07(s: MachineState, op: u16) -> MachineState {
    set_v(s, field_x(op), s.delay)
}

/// `FX0A`: `VX := pressed key`; with no key pressed, step back so that the
/// instruction runs again.
pub open spec fn op_fx0a(s: MachineState, op: u16) -> MachineState {
    match pressed_key(s.keys) {
        Some(k) => set_v(s, field_x(op), k),
        None => set_pc(s, pc_back(s.pc)),
    }
}

/// `FX15`: `delay timer := VX`.
pub open spec fn op_fx15(s: MachineState, op: u16) -> MachineState {
    MachineState { delay: s.v[field_x(op)], ..s }
}

/// `FX18`: `sound timer := VX`.
pub open spec fn op_fx18(s: MachineState, op: u16) -> MachineState {
    MachineState { sound: s.v[field_x(op)], ..s }
}

/// `FX1E`: `I := I + VX` (a 16-bit word).
pub open spec fn op_fx1e(s: MachineState, op: u16) -> MachineState {
    MachineState { i: ((s.i + s.v[field_x(op)]) % 65536) as u16, ..s }
}

/// `FX29`: `I :=` address of the glyph for digit `VX`.
pub open spec fn op_fx29(s: MachineState, op: u16) -> MachineState {
    MachineState { i: (FONT_BASE + s.v[field_x(op)] * 5) as u16, ..s }
}

/// `FX33`: the decimal digits of `VX` into `memory[I..I+3]`.
pub open spec fn op_fx33(s: MachineState, op: u16) -> Result<MachineState, Error> {
    let vx = s.v[field_x(op)];
    if s.i + 3 > MEMORY_SIZE {
        Err(Error::OutOfBoundsAccess)
    } else {
        Ok(
            MachineState {
                memory: s.memory.update(s.i as int, vx / 100).update(s.i + 1, (vx / 10) % 10).update(
                    s.i + 2,
                    vx % 10,
                ),
                ..s
            },
        )
    }
}

/// `FX55`: `V0..=VX` into memory from `I` on; `I` moves past them.
pub open spec fn op_fx55(s: MachineState, op: u16) -> Result<MachineState, Error> {
    let x = field_x(op);
    if s.i + x + 1 > MEMORY_SIZE {
        Err(Error::OutOfBoundsAccess)
    } else {
        Ok(
            MachineState {
                memory: Seq::new(
                    s.memory.len(),
                    |k: int|
                        if s.i <= k <= s.i + x {
                            s.v[k - s.i]
                        } else {
                            s.memory[k]
                        },
                ),
                i: (s.i + x + 1) as u16,
                ..s
            },
        )
    }
}

/// `FX65`: memory from `I` on into `V0..=VX`; `I` moves past them.
pub open spec fn op_fx65(s: MachineState, op: u16) -> Result<MachineState, Error> {
    let x = field_x(op);
    if s.i + x + 1 > MEMORY_SIZE {
        Err(Error::OutOfBoundsAccess)
    } else {
        Ok(
            MachineState {
                v: Seq::new(
                    s.v.len(),
                    |k: int|
                        if k <= x {
                            s.memory[s.i + k]
                        } else {
                            s.v[k]
                        },
                ),
                i: (s.i + x + 1) as u16,
                ..s
            },
        )
    }
}

// ---- decode and step --------------------------------------------------------------

/// Run the instruction `op` on `s` (whose counter has already moved past it);
/// `r` is the random byte that `CXNN` uses.
pub open spec fn dispatch(s: MachineState, op: u16, r: u8) -> Result<MachineState, Error> {
    let family = op / 4096;
    let nn = field_nn(op);
    let n = field_n(op);
    if family == 0 {
        if nn == 0xE0 {
            Ok(op_00e0(s))
        } else if nn == 0xEE {
            op_00ee(s)
        } else {
            Ok(op_0nnn(s, op))
        }
    } else if family == 1 {
        Ok(op_1nnn(s, op))
    } else if family == 2 {
        Ok(op_2nnn(s, op))
    } else if family == 3 {
        Ok(op_3xnn(s, op))
    } else if family == 4 {
        Ok(op_4xnn(s, op))
    } else if family == 5 {
        Ok(op_5xy0(s, op))
    } else if family == 6 {
        Ok(op_6xnn(s, op))
    } else if family == 7 {
        Ok(op_7xnn(s, op))
    } else if family == 8 {
        if n == 0 {
            Ok(op_8xy0(s, op))
        } else if n == 1 {
            Ok(op_8xy1(s, op))
        } else if n == 2 {
            Ok(op_8xy2(s, op))
        } else if n == 3 {
            Ok(op_8xy3(s, op))
        } else if n == 4 {
            Ok(op_8xy4(s, op))
        } else if n == 5 {
            Ok(op_8xy5(s, op))
        } else if n == 6 {
            Ok(op_8xy6(s, op))
        } else if n == 7 {
            Ok(op_8xy7(s, op))
        } else if n == 0xE {
            Ok(op_8xye(s, op))
        } else {
            Err(Error::UnimplementedOpcode(op))
        }
    } else if family == 9 {
        Ok(op_9xy0(s, op))
    } else if family == 0xA {
        Ok(op_annn(s, op))
    } else if family == 0xB {
        Ok(op_bnnn(s, op))
    } else if family == 0xC {
        Ok(op_cxnn(s, op, r))
    } else if family == 0xD {
        op_dxyn(s, op)
    } else if family == 0xE {
        if nn == 0x9E {
            Ok(op_ex9e(s, op))
        } else if nn == 0xA1 {
            Ok(op_exa1(s, op))
        } else {
            Err(Error::UnimplementedOpcode(op))
        }
    } else {
        if nn == 0x07 {
            Ok(op_fx07(s, op))
        } else if nn == 0x0A {
            Ok(op_fx0a(s, op))
        } else if nn == 0x15 {
            Ok(op_fx15(s, op))
        } else if nn == 0x18 {
            Ok(op_fx18(s, op))
        } else if nn == 0x1E {
            Ok(op_fx1e(s, op))
        } else if nn == 0x29 {
            Ok(op_fx29(s, op))
        } else if nn == 0x33 {
            op_fx33(s, op)
        } else if nn == 0x55 {
            op_fx55(s, op)
        } else if nn == 0x65 {
            op_fx65(s, op)
        } else {
            Err(Error::UnimplementedOpcode(op))
        }
    }
}

/// One fetch-decode-execute cycle: read the word at `PC`, move `PC` past it,
/// run it. Fails when the word lies outside memory or the instruction fails.
pub open spec fn step_spec(s: MachineState, r: u8) -> Result<MachineState, Error> {
    if s.pc + 1 >= MEMORY_SIZE {
        Err(Error::OutOfBoundsAccess)
    } else {
        let op = word_of(s.memory[s.pc as int], s.memory[s.pc + 1]);
        dispatch(set_pc(s, (s.pc + 2) as u16), op, r)
    }
}

/// How a fallible operation's outcome relates `before`, `after` and its
/// result `r`: on success the machine is `spec`'s state; on failure it is
/// left as it was and the fault is reported.
pub open spec fn outcome(
    spec: Result<MachineState, Error>,
    before: MachineState,
    after: MachineState,
    r: Result<(), Error>,
) -> bool {
    match spec {
        Ok(t) => r == Ok::<(), Error>(()) && after == t,
        Err(e) => r == Err::<(), Error>(e) && after == before,
    }
}

} // verus!
