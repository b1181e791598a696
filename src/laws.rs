//! Properties of running instructions one after another.
use vstd::prelude::*;
use crate::model::{
    draw_steps, draw_target, field_n, field_nn, field_nnn, field_x, field_y, first_pressed_from,
    op_dxyn, pixel_at, pressed_key, set_pc, set_v, sprite_bit, step_spec, wf_state, word_of,
    MEMORY_SIZE, MachineState,
};

verus! {

/// The operand fields of the word made of `hi` and `lo`.
pub proof fn lemma_word_fields(hi: u8, lo: u8)
    ensures
        word_of(hi, lo) / 4096 == hi / 16,
        field_x(word_of(hi, lo)) == hi % 16,
        field_y(word_of(hi, lo)) == lo / 16,
        field_n(word_of(hi, lo)) == lo % 16,
        field_nn(word_of(hi, lo)) == lo,
        field_nnn(word_of(hi, lo)) == (hi % 16) * 256 + lo,
{
    let w = hi as int * 256 + lo as int;
    assert(w / 4096 == hi / 16) by (nonlinear_arith)
        requires w == hi as int * 256 + lo as int, 0 <= hi < 256, 0 <= lo < 256;
    assert((w / 256) % 16 == hi % 16) by (nonlinear_arith)
        requires w == hi as int * 256 + lo as int, 0 <= hi < 256, 0 <= lo < 256;
    assert((w / 16) % 16 == lo / 16) by (nonlinear_arith)
        requires w == hi as int * 256 + lo as int, 0 <= hi < 256, 0 <= lo < 256;
    assert(w % 16 == lo % 16) by (nonlinear_arith)
        requires w == hi as int * 256 + lo as int, 0 <= hi < 256, 0 <= lo < 256;
    assert(w % 256 == lo) by (nonlinear_arith)
        requires w == hi as int * 256 + lo as int, 0 <= hi < 256, 0 <= lo < 256;
    assert(w % 4096 == (hi % 16) * 256 + lo) by (nonlinear_arith)
        requires w == hi as int * 256 + lo as int, 0 <= hi < 256, 0 <= lo < 256;
}

/// Loading `NN` into `VX` with `6XNN` and then adding `NN2` with `7XNN2`
/// leaves `(NN + NN2) mod 256` in `VX`.
pub proof fn law_load_then_add(s: MachineState, x: u8, nn: u8, nn2: u8, r1: u8, r2: u8)
    requires
        wf_state(s),
        x < 16,
        s.pc + 3 < MEMORY_SIZE,
        s.memory[s.pc as int] == 0x60 + x,
        s.memory[s.pc + 1] == nn,
        s.memory[s.pc + 2] == 0x70 + x,
        s.memory[s.pc + 3] == nn2,
    ensures
        step_spec(s, r1) is Ok,
        step_spec(step_spec(s, r1).unwrap(), r2) is Ok,
        step_spec(step_spec(s, r1).unwrap(), r2).unwrap().v[x as int] == (nn + nn2) % 256,
{
    lemma_word_fields((0x60 + x) as u8, nn);
    lemma_word_fields((0x70 + x) as u8, nn2);
    let t = step_spec(s, r1).unwrap();
    assert(t.pc == s.pc + 2);
    assert(t.memory == s.memory);
    assert(t.v[x as int] == nn);
}

/// `00E0` leaves every pixel of the grid at 0 and the framebuffer marked
/// changed, so a full read sees a blank screen and the changed flag set.
pub proof fn law_clear_screen(s: MachineState, r: u8)
    requires
        wf_state(s),
        s.pc + 1 < MEMORY_SIZE,
        s.memory[s.pc as int] == 0x00,
        s.memory[s.pc + 1] == 0xE0,
    ensures
        step_spec(s, r) is Ok,
        forall|x: int, y: int|
            0 <= x < 64 && 0 <= y < 32 ==> #[trigger] pixel_at(step_spec(s, r).unwrap(), x, y) == 0,
        step_spec(s, r).unwrap().dirty,
{
    lemma_word_fields(0x00, 0xE0);
    let t = step_spec(s, r).unwrap();
    assert forall|x: int, y: int| 0 <= x < 64 && 0 <= y < 32 implies #[trigger] pixel_at(t, x, y) == 0 by {
        assert(0 <= x * 32 + y < 2048) by (nonlinear_arith)
            requires 0 <= x < 64, 0 <= y < 32;
    }
}

/// A call with `2NNN` followed by a return with `00EE` comes back to the
/// instruction right after the call, with the stack and everything else as
/// before.
pub proof fn law_call_then_return(s: MachineState, r1: u8, r2: u8)
    requires
        wf_state(s),
        s.pc + 1 < MEMORY_SIZE,
        s.memory[s.pc as int] / 16 == 2,
        (s.memory[s.pc as int] % 16) * 256 + s.memory[s.pc + 1] + 1 < MEMORY_SIZE,
        s.memory[(s.memory[s.pc as int] % 16) * 256 + s.memory[s.pc + 1]] == 0x00,
        s.memory[(s.memory[s.pc as int] % 16) * 256 + s.memory[s.pc + 1] + 1] == 0xEE,
    ensures
        step_spec(s, r1) is Ok,
        step_spec(step_spec(s, r1).unwrap(), r2) is Ok,
        step_spec(step_spec(s, r1).unwrap(), r2).unwrap() == set_pc(s, (s.pc + 2) as u16),
{
    let hi = s.memory[s.pc as int];
    let lo = s.memory[s.pc + 1];
    lemma_word_fields(hi, lo);
    lemma_word_fields(0x00, 0xEE);
    let t = step_spec(s, r1).unwrap();
    assert(t.pc == (hi % 16) * 256 + lo);
    assert(t.stack == s.stack.push((s.pc + 2) as u16));
    let u = step_spec(t, r2).unwrap();
    assert(u.stack =~= s.stack);
    assert(u == set_pc(s, (s.pc + 2) as u16));
}

/// `first_pressed_from` finds the lowest pressed key at or above `from`.
pub proof fn lemma_first_pressed_from(keys: Seq<bool>, from: int)
    requires
        keys.len() == 16,
        0 <= from <= 16,
    ensures
        first_pressed_from(keys, from) is None <==> (forall|k: int| from <= k < 16 ==> !keys[k]),
        first_pressed_from(keys, from) matches Some(k) ==> from <= k < 16 && keys[k as int] && (
        forall|j: int| from <= j < k ==> !keys[j]),
    decreases 16 - from,
{
    if from < 16 {
        lemma_first_pressed_from(keys, from + 1);
    }
}

/// With no key held, `FX0A` executes as a step that changes nothing at all,
/// so the machine waits on it; once a key is held, it moves on with the
/// lowest held key's index in `VX`.
pub proof fn law_wait_for_key(s: MachineState, r: u8)
    requires
        wf_state(s),
        s.pc + 1 < MEMORY_SIZE,
        s.memory[s.pc as int] / 16 == 0xF,
        s.memory[s.pc + 1] == 0x0A,
    ensures
        (forall|k: int| 0 <= k < 16 ==> !s.keys[k]) ==> step_spec(s, r) == Ok::<MachineState, crate::error::Error>(s),
        forall|k: int|
            0 <= k < 16 && #[trigger] s.keys[k] && (forall|j: int| 0 <= j < k ==> !s.keys[j]) ==> step_spec(s, r)
                == Ok::<MachineState, crate::error::Error>(
                set_v(set_pc(s, (s.pc + 2) as u16), (s.memory[s.pc as int] % 16) as int, k as u8),
            ),
{
    lemma_word_fields(s.memory[s.pc as int], 0x0A);
    lemma_first_pressed_from(s.keys, 0);
    assert forall|k: int|
        0 <= k < 16 && #[trigger] s.keys[k] && (forall|j: int| 0 <= j < k ==> !s.keys[j]) implies pressed_key(s.keys) == Some(k as u8) by {
        let p = pressed_key(s.keys);
        if let Some(q) = p {
            assert(q as int == k) by {
                if (q as int) < k {
                    assert(!s.keys[q as int]);
                } else if (q as int) > k {
                    assert(!s.keys[k]);
                }
            }
        }
    }
}

/// How many of the first `k` sprite bits land on pixel `p`.
pub open spec fn hits(sprite: Seq<u8>, cx: u8, cy: u8, k: nat, p: int) -> nat
    decreases k,
{
    if k == 0 {
        0
    } else {
        let j = k - 1;
        hits(sprite, cx, cy, (k - 1) as nat, p) + if sprite_bit(sprite[j / 8], j % 8) && draw_target(
            cx,
            cy,
            j / 8,
            j % 8,
        ) == p {
            1nat
        } else {
            0nat
        }
    }
}

/// `b` with its low bit flipped `c` times.
pub open spec fn flip_times(b: u8, c: nat) -> u8 {
    if c % 2 == 1 {
        b ^ 1u8
    } else {
        b
    }
}

proof fn lemma_flip_times_add(b: u8, a: nat, c: nat)
    ensures
        flip_times(flip_times(b, a), c) == flip_times(b, a + c),
{
    assert((b ^ 1u8) ^ 1u8 == b) by (bit_vector);
}

proof fn lemma_draw_target_in_range(cx: u8, cy: u8, row: int, col: int)
    requires
        0 <= row,
        0 <= col,
    ensures
        0 <= draw_target(cx, cy, row, col) < 2048,
{
    let x = if cx + col > 63 { 63 } else { cx + col };
    let y = if cy + row > 31 { 31 } else { cy + row };
    assert(0 <= x * 32 + y < 2048) by (nonlinear_arith)
        requires 0 <= x < 64, 0 <= y < 32;
}

/// After `k` sprite bits each pixel has been flipped once per bit that lands on it.
pub proof fn lemma_draw_flips(screen: Seq<u8>, sprite: Seq<u8>, cx: u8, cy: u8, k: nat)
    requires
        screen.len() == 2048,
        k <= sprite.len() * 8,
    ensures
        draw_steps(screen, sprite, cx, cy, k).screen.len() == 2048,
        forall|p: int|
            0 <= p < 2048 ==> #[trigger] draw_steps(screen, sprite, cx, cy, k).screen[p] == flip_times(
                screen[p],
                hits(sprite, cx, cy, k, p),
            ),
    decreases k,
{
    if k > 0 {
        let j = (k - 1) as int;
        lemma_draw_flips(screen, sprite, cx, cy, (k - 1) as nat);
        lemma_draw_target_in_range(cx, cy, j / 8, j % 8);
        let q = draw_target(cx, cy, j / 8, j % 8);
        assert forall|p: int| 0 <= p < 2048 implies #[trigger] draw_steps(
            screen,
            sprite,
            cx,
            cy,
            k,
        ).screen[p] == flip_times(screen[p], hits(sprite, cx, cy, k, p)) by {
            lemma_flip_times_add(screen[p], hits(sprite, cx, cy, (k - 1) as nat, p), 1);
        }
    }
}

/// A bit that lands on a lit pixel makes the draw report a collision,
/// whatever bits follow it.
proof fn lemma_collision_kept(screen: Seq<u8>, sprite: Seq<u8>, cx: u8, cy: u8, j: nat, k: nat)
    requires
        j < k,
        sprite_bit(sprite[j as int / 8], j as int % 8),
        draw_steps(screen, sprite, cx, cy, j).screen[draw_target(cx, cy, j as int / 8, j as int % 8)] == 1,
    ensures
        draw_steps(screen, sprite, cx, cy, k).collision,
    decreases k,
{
    if k > j + 1 {
        lemma_collision_kept(screen, sprite, cx, cy, j, (k - 1) as nat);
    }
}

/// For each `m` below the number of bits landing on `p`, the bit that lands
/// there with `m` such bits before it.
proof fn lemma_nth_hit(sprite: Seq<u8>, cx: u8, cy: u8, k: nat, p: int, m: nat) -> (j: nat)
    requires
        m < hits(sprite, cx, cy, k, p),
    ensures
        j < k,
        sprite_bit(sprite[j as int / 8], j as int % 8),
        draw_target(cx, cy, j as int / 8, j as int % 8) == p,
        hits(sprite, cx, cy, j, p) == m,
    decreases k,
{
    if m < hits(sprite, cx, cy, (k - 1) as nat, p) {
        lemma_nth_hit(sprite, cx, cy, (k - 1) as nat, p, m)
    } else {
        (k - 1) as nat
    }
}

/// A bit before `k` that lands on `p` counts among the hits on `p`.
proof fn lemma_hit_counted(sprite: Seq<u8>, cx: u8, cy: u8, j: nat, k: nat, p: int)
    requires
        j < k,
        sprite_bit(sprite[j as int / 8], j as int % 8),
        draw_target(cx, cy, j as int / 8, j as int % 8) == p,
    ensures
        hits(sprite, cx, cy, k, p) >= 1,
    decreases k,
{
    if k > j + 1 {
        lemma_hit_counted(sprite, cx, cy, j, (k - 1) as nat, p);
    }
}

/// Drawing the same sprite twice at the same place gives back the
/// framebuffer as it was (XOR twice changes nothing). When the sprite has a
/// set bit and the pixels that its set bits cover were dark, the second draw
/// turns a lit pixel off and sets `VF` to 1.
pub proof fn law_draw_twice(s: MachineState, op: u16)
    requires
        wf_state(s),
        op_dxyn(s, op) is Ok,
        field_x(op) != 15,
        field_y(op) != 15,
    ensures
        op_dxyn(op_dxyn(s, op).unwrap(), op) is Ok,
        op_dxyn(op_dxyn(s, op).unwrap(), op).unwrap().screen == s.screen,
        (exists|j: int|
            0 <= j < field_n(op) * 8 && #[trigger] sprite_bit(s.memory[s.i + j / 8], j % 8)) && (
        forall|j: int|
            0 <= j < field_n(op) * 8 && #[trigger] sprite_bit(s.memory[s.i + j / 8], j % 8)
                ==> s.screen[draw_target(s.v[field_x(op)], s.v[field_y(op)], j / 8, j % 8)] == 0)
            ==> op_dxyn(op_dxyn(s, op).unwrap(), op).unwrap().v[15] == 1,
{
    let n = field_n(op);
    let k = (n * 8) as nat;
    let sprite = s.memory.subrange(s.i as int, s.i + n);
    let cx = s.v[field_x(op)];
    let cy = s.v[field_y(op)];
    let t = op_dxyn(s, op).unwrap();
    assert(t.memory == s.memory && t.i == s.i);
    assert(t.v[field_x(op)] == cx && t.v[field_y(op)] == cy);
    let u = op_dxyn(t, op).unwrap();
    lemma_draw_flips(s.screen, sprite, cx, cy, k);
    lemma_draw_flips(t.screen, sprite, cx, cy, k);
    assert forall|p: int| 0 <= p < 2048 implies #[trigger] u.screen[p] == s.screen[p] by {
        let h = hits(sprite, cx, cy, k, p);
        lemma_flip_times_add(s.screen[p], h, h);
        assert((h + h) % 2 == 0);
    }
    assert(u.screen =~= s.screen);
    if (exists|j: int|
        0 <= j < n * 8 && #[trigger] sprite_bit(s.memory[s.i + j / 8], j % 8)) && (forall|j: int|
        0 <= j < n * 8 && #[trigger] sprite_bit(s.memory[s.i + j / 8], j % 8) ==> s.screen[draw_target(
            cx,
            cy,
            j / 8,
            j % 8,
        )] == 0) {
        let j0 = choose|j: int| 0 <= j < n * 8 && #[trigger] sprite_bit(s.memory[s.i + j / 8], j % 8);
        assert(sprite[j0 / 8] == s.memory[s.i + j0 / 8]);
        lemma_draw_target_in_range(cx, cy, j0 / 8, j0 % 8);
        let q = draw_target(cx, cy, j0 / 8, j0 % 8);
        assert(s.screen[q] == 0);
        lemma_hit_counted(sprite, cx, cy, j0 as nat, k, q);
        let h = hits(sprite, cx, cy, k, q);
        let m: nat = if h % 2 == 1 { 0 } else { 1 };
        let j = lemma_nth_hit(sprite, cx, cy, k, q, m);
        lemma_draw_flips(t.screen, sprite, cx, cy, j);
        lemma_flip_times_add(0u8, h, m);
        assert(0u8 ^ 1u8 == 1u8) by (bit_vector);
        assert(draw_steps(t.screen, sprite, cx, cy, j).screen[q] == 1);
        lemma_collision_kept(t.screen, sprite, cx, cy, j, k);
    }
}

} // verus!
