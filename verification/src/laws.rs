//! Properties of the instruction set that span several instructions or hold
//! of every state.
use vstd::prelude::*;
use crate::machine::{
    Machine, RAM_SIZE, SCREEN_SIZE, SKIP, STACK_SIZE, VF, collision_upto, draw_target,
    execute_ok, execute_spec, first_pressed, op_kind, op_n, op_nn, op_x, op_y, sprite_bit,
    sprite_col, sprite_covers, sprite_row,
};
use crate::sprite::lemma_target;

verus! {

/// Every pixel of the screen is 0 (dark) or 1 (lit).
pub open spec fn pixels_binary(s: Machine) -> bool {
    forall|idx: int| 0 <= idx < s.screen.len() ==> #[trigger] s.screen[idx] <= 1
}

/// A call (`2NNN`) followed by a return (`00EE`) comes back to the
/// instruction after the call with the stack pointer restored; the only trace
/// left is the return address in the stack slot that the call used.
pub proof fn lemma_call_then_return(s: Machine, call: u16, ret: u16, r1: u8, r2: u8)
    requires
        s.well_sized(),
        op_kind(call) == 2,
        ret == 0x00EE,
        execute_ok(s, call),
    ensures
        execute_ok(execute_spec(s, call, r1), ret),
        execute_spec(execute_spec(s, call, r1), ret, r2) == (Machine {
            stack: s.stack.update(s.sp as int, s.pc),
            ..s
        }),
{
    let s1 = execute_spec(s, call, r1);
    assert(op_kind(ret) == 0 && op_x(ret) == 0 && op_y(ret) == 0xE && op_n(ret) == 0xE);
    assert(s1.sp == s.sp + 1 && s1.sp <= STACK_SIZE);
    assert(s1.stack[s1.sp - 1] == s.pc);
    assert(execute_spec(s1, ret, r2) =~= (Machine { stack: s.stack.update(s.sp as int, s.pc), ..s }));
}

/// Flipping a pixel twice leaves it as it was.
proof fn lemma_xor_one_twice(a: u8)
    by (bit_vector)
    ensures
        (a ^ 1u8) ^ 1u8 == a,
{
}

/// Drawing the same sprite at the same place twice (`DXYN` with neither `X`
/// nor `Y` the flag register `VF`) leaves the screen as it was.
pub proof fn lemma_draw_twice_restores_screen(s: Machine, op: u16, r1: u8, r2: u8)
    requires
        s.well_sized(),
        op_kind(op) == 0xD,
        op_x(op) != VF,
        op_y(op) != VF,
        execute_ok(s, op),
    ensures
        execute_ok(execute_spec(s, op, r1), op),
        execute_spec(execute_spec(s, op, r1), op, r2).screen == s.screen,
{
    let s1 = execute_spec(s, op, r1);
    let s2 = execute_spec(s1, op, r2);
    let x = op_x(op) as int;
    let y = op_y(op) as int;
    let n = op_n(op) as int;
    assert(s1.v_reg[x] == s.v_reg[x] && s1.v_reg[y] == s.v_reg[y]);
    assert forall|idx: int| 0 <= idx < SCREEN_SIZE implies s2.screen[idx] == s.screen[idx] by {
        let vx = s.v_reg[x];
        let vy = s.v_reg[y];
        assert(sprite_covers(s1, vx, vy, n, idx) == sprite_covers(s, vx, vy, n, idx));
        lemma_xor_one_twice(s.screen[idx]);
    }
    assert(s2.screen =~= s.screen);
}

/// Flipping a dark or lit pixel gives a dark or lit pixel.
proof fn lemma_xor_one_binary(a: u8)
    by (bit_vector)
    requires
        a <= 1,
    ensures
        a ^ 1u8 <= 1,
        a == 1 ==> a ^ 1u8 == 0,
        a == 0 ==> a ^ 1u8 == 1,
{
}

/// Every instruction keeps each pixel of the screen dark or lit.
pub proof fn lemma_execute_keeps_pixels_binary(s: Machine, op: u16, rnd: u8)
    requires
        s.well_sized(),
        pixels_binary(s),
    ensures
        pixels_binary(execute_spec(s, op, rnd)),
{
    let s1 = execute_spec(s, op, rnd);
    assert forall|idx: int| 0 <= idx < s1.screen.len() implies #[trigger] s1.screen[idx] <= 1 by {
        assert(s.screen[idx] <= 1);
        lemma_xor_one_binary(s.screen[idx]);
    }
}

/// One cycle keeps each pixel of the screen dark or lit.
pub proof fn lemma_tick_keeps_pixels_binary(s: Machine, rnd: u8)
    requires
        s.well_sized(),
        pixels_binary(s),
    ensures
        pixels_binary(s.tick_spec(rnd)),
{
    let s1 = s.with_pc(s.pc + SKIP);
    assert(s1.screen == s.screen);
    lemma_execute_keeps_pixels_binary(s1, s.fetch_op(), rnd);
}

/// Loading registers (`FX65`) right after storing them (`FX55`) with the
/// same `X` and `I` changes nothing.
pub proof fn lemma_store_then_load(s: Machine, store: u16, load: u16, r1: u8, r2: u8)
    requires
        s.well_sized(),
        op_kind(store) == 0xF && op_y(store) == 5 && op_n(store) == 5,
        op_kind(load) == 0xF && op_y(load) == 6 && op_n(load) == 5,
        op_x(load) == op_x(store),
        execute_ok(s, store),
    ensures
        execute_ok(execute_spec(s, store, r1), load),
        execute_spec(execute_spec(s, store, r1), load, r2) == execute_spec(s, store, r1),
{
    let s1 = execute_spec(s, store, r1);
    let s2 = execute_spec(s1, load, r2);
    assert(s2.v_reg =~= s1.v_reg);
    assert(s2 =~= s1);
}

/// `FX33` writes the decimal digits of `VX`: three digits, hundreds first,
/// that add up to `VX`.
pub proof fn lemma_bcd_digits(s: Machine, op: u16, rnd: u8)
    requires
        s.well_sized(),
        op_kind(op) == 0xF && op_y(op) == 3 && op_n(op) == 3,
        execute_ok(s, op),
    ensures
        ({
            let m = execute_spec(s, op, rnd).ram;
            let i = s.i_reg as int;
            &&& m[i] < 10 && m[i + 1] < 10 && m[i + 2] < 10
            &&& 100 * m[i] + 10 * m[i + 1] + m[i + 2] == s.v_reg[op_x(op) as int]
            &&& forall|k: int| 0 <= k < RAM_SIZE && !(i <= k <= i + 2) ==> m[k] == s.ram[k]
        }),
{
    let vx = s.v_reg[op_x(op) as int];
    assert(100 * (vx / 100) + 10 * ((vx / 10) % 10) + vx % 10 == vx) by (nonlinear_arith)
        requires
            0 <= vx < 256,
    ;
}

/// Waiting for a key (`FX0A`) with no key held down leaves the machine
/// exactly as it was: the next cycle runs the same instruction again.
pub proof fn lemma_wait_without_key_repeats(s: Machine, rnd: u8)
    requires
        s.well_sized(),
        s.tick_ok(),
        op_kind(s.fetch_op()) == 0xF && op_y(s.fetch_op()) == 0 && op_n(s.fetch_op()) == 0xA,
        forall|k: int| 0 <= k < s.keys.len() ==> !#[trigger] s.keys[k],
    ensures
        s.tick_spec(rnd) == s,
{
    assert(first_pressed(s.keys) is None);
    assert(s.tick_spec(rnd) =~= s);
}

/// Of `3XNN` and `4XNN` with the same `X` and `NN`, exactly one skips the
/// next instruction.
pub proof fn lemma_skips_complement(s: Machine, eq: u16, ne: u16, r1: u8, r2: u8)
    requires
        s.well_sized(),
        op_kind(eq) == 3,
        op_kind(ne) == 4,
        op_x(eq) == op_x(ne),
        op_nn(eq) == op_nn(ne),
        execute_ok(s, eq),
        execute_ok(s, ne),
    ensures
        (execute_spec(s, eq, r1).pc == s.pc + SKIP) != (execute_spec(s, ne, r2).pc == s.pc + SKIP),
        execute_spec(s, eq, r1).pc == s.pc || execute_spec(s, eq, r1).pc == s.pc + SKIP,
        execute_spec(s, ne, r2).pc == s.pc || execute_spec(s, ne, r2).pc == s.pc + SKIP,
{
}

/// Sprite pixel `j` (row `j / 8`, column `j % 8`) is lit and lands on a lit
/// pixel of the screen.
pub open spec fn lands_on_lit(s: Machine, vx: u8, vy: u8, j: int) -> bool {
    &&& sprite_bit(s.ram[s.i_reg + j / 8], (j % 8) as u16)
    &&& s.screen[draw_target(vx, vy, j / 8, j % 8)] == 1
}

/// The or of two values that are each 0 or 1.
proof fn lemma_or_binary(a: u8, b: u8)
    by (bit_vector)
    requires
        a <= 1,
        b <= 1,
    ensures
        a | b == (if a == 1 || b == 1 { 1u8 } else { 0u8 }),
{
}

/// On a screen of dark and lit pixels, the or over the first `k` sprite
/// pixels is 1 exactly when one of them is lit and lands on a lit pixel.
proof fn lemma_collision_upto_binary(s: Machine, vx: u8, vy: u8, k: int)
    requires
        s.well_sized(),
        pixels_binary(s),
        0 <= k <= 8 * 16,
    ensures
        collision_upto(s, vx, vy, k) == (if exists|j: int| 0 <= j < k && #[trigger] lands_on_lit(s, vx, vy, j) {
            1u8
        } else {
            0u8
        }),
    decreases k,
{
    if k > 0 {
        lemma_collision_upto_binary(s, vx, vy, k - 1);
        let r = (k - 1) / 8;
        let c = (k - 1) % 8;
        lemma_target(vx, vy, r, c);
        let prev = collision_upto(s, vx, vy, k - 1);
        let t = draw_target(vx, vy, r, c);
        assert(s.screen[t] <= 1);
        lemma_or_binary(prev, s.screen[t]);
        if exists|j: int| 0 <= j < k && #[trigger] lands_on_lit(s, vx, vy, j) {
            let j = choose|j: int| 0 <= j < k && #[trigger] lands_on_lit(s, vx, vy, j);
            if j < k - 1 {
                assert(prev == 1);
            } else {
                assert(j == k - 1);
            }
        } else {
            assert(!lands_on_lit(s, vx, vy, k - 1));
        }
    }
}

/// On a screen of dark and lit pixels, drawing a sprite (`DXYN`) sets `VF`
/// to 1 exactly when some lit pixel goes dark, and to 0 otherwise.
pub proof fn lemma_collision_flag(s: Machine, op: u16, rnd: u8)
    requires
        s.well_sized(),
        pixels_binary(s),
        op_kind(op) == 0xD,
        execute_ok(s, op),
    ensures
        ({
            let s1 = execute_spec(s, op, rnd);
            s1.v_reg[VF as int] == (if exists|idx: int|
                0 <= idx < SCREEN_SIZE && s.screen[idx] == 1 && #[trigger] s1.screen[idx] == 0 {
                1u8
            } else {
                0u8
            })
        }),
{
    let s1 = execute_spec(s, op, rnd);
    let x = op_x(op) as int;
    let y = op_y(op) as int;
    let n = op_n(op) as int;
    let vx = s.v_reg[x];
    let vy = s.v_reg[y];
    lemma_collision_upto_binary(s, vx, vy, 8 * n);
    let turned_off = exists|idx: int|
        0 <= idx < SCREEN_SIZE && s.screen[idx] == 1 && #[trigger] s1.screen[idx] == 0;
    let lit_hit = exists|j: int| 0 <= j < 8 * n && #[trigger] lands_on_lit(s, vx, vy, j);
    if lit_hit {
        let j = choose|j: int| 0 <= j < 8 * n && #[trigger] lands_on_lit(s, vx, vy, j);
        let r = j / 8;
        let c = j % 8;
        lemma_target(vx, vy, r, c);
        let t = draw_target(vx, vy, r, c);
        assert(sprite_covers(s, vx, vy, n, t));
        lemma_xor_one_binary(s.screen[t]);
        assert(s1.screen[t] == 0);
        assert(turned_off);
    }
    if turned_off {
        let idx = choose|idx: int|
            0 <= idx < SCREEN_SIZE && s.screen[idx] == 1 && #[trigger] s1.screen[idx] == 0;
        assert(sprite_covers(s, vx, vy, n, idx));
        let c = sprite_col(vx, idx);
        let r = sprite_row(vy, idx);
        let j = 8 * r + c;
        assert(0 <= c < 8 && 0 <= r < n);
        assert(j / 8 == r && j % 8 == c);
        lemma_target(vx, vy, r, c);
        assert(lands_on_lit(s, vx, vy, j));
        assert(lit_hit);
    }
}

} // verus!
