//! What each instruction does, stated instruction by instruction as
//! relations between the machine before and after it: arithmetic identities,
//! bit by bit descriptions of the logic operations, and exactly when the
//! program counter moves. Opcode fields are read here with plain arithmetic.
use vstd::prelude::*;
use crate::machine::{
    FONTSET_SIZE, Machine, SKIP, VF, draw_target, execute_spec, font_spec, sprite_bit, sprite_covers,
};
use crate::sprite::lemma_target;

verus! {

/// The high nibble of `op`.
pub open spec fn kind_of(op: u16) -> int {
    op as int / 4096
}

/// The register named by the second nibble of `op`.
pub open spec fn reg_x(op: u16) -> int {
    (op as int / 256) % 16
}

/// The register named by the third nibble of `op`.
pub open spec fn reg_y(op: u16) -> int {
    (op as int / 16) % 16
}

/// The low nibble of `op`.
pub open spec fn low_nibble(op: u16) -> int {
    op as int % 16
}

/// The low byte of `op`.
pub open spec fn low_byte(op: u16) -> int {
    op as int % 256
}

/// The low twelve bits of `op`.
pub open spec fn address_of(op: u16) -> int {
    op as int % 4096
}

/// Bit `i` of `v` (0 is the least significant) is set.
pub open spec fn bit_set(v: u8, i: u8) -> bool {
    (v >> i) & 1u8 == 1u8
}

/// `t` differs from `s` in its registers only, and there only in `V<keep>`
/// and the registers in `written`.
pub open spec fn only_regs_changed(s: Machine, t: Machine, written: Set<int>) -> bool {
    &&& t == Machine { v_reg: t.v_reg, ..s }
    &&& t.v_reg.len() == s.v_reg.len()
    &&& forall|k: int| 0 <= k < s.v_reg.len() && !written.contains(k) ==> #[trigger] t.v_reg[k]
        == s.v_reg[k]
}

/// `t` differs from `s` in its program counter only.
pub open spec fn only_pc_changed(s: Machine, t: Machine) -> bool {
    t == Machine { pc: t.pc, ..s }
}

proof fn lemma_bits_or(a: u8, b: u8)
    by (bit_vector)
    ensures
        forall|i: u8| i < 8 ==> #[trigger] bit_set(a | b, i) == (bit_set(a, i) || bit_set(b, i)),
{
}

proof fn lemma_bits_and(a: u8, b: u8)
    by (bit_vector)
    ensures
        forall|i: u8| i < 8 ==> #[trigger] bit_set(a & b, i) == (bit_set(a, i) && bit_set(b, i)),
{
}

proof fn lemma_bits_xor(a: u8, b: u8)
    by (bit_vector)
    ensures
        forall|i: u8| i < 8 ==> #[trigger] bit_set(a ^ b, i) == (bit_set(a, i) != bit_set(b, i)),
{
}

/// `8XY0`: `VX` takes the value of `VY`; nothing else changes.
pub proof fn law_assign(s: Machine, op: u16, rnd: u8)
    requires
        s.well_sized(),
        kind_of(op) == 8,
        low_nibble(op) == 0,
    ensures
        execute_spec(s, op, rnd).v_reg[reg_x(op)] == s.v_reg[reg_y(op)],
        only_regs_changed(s, execute_spec(s, op, rnd), set![reg_x(op)]),
{
}

/// `8XY1`: each bit of the new `VX` is set exactly when it is set in the old
/// `VX` or in `VY`; nothing else changes.
pub proof fn law_or(s: Machine, op: u16, rnd: u8)
    requires
        s.well_sized(),
        kind_of(op) == 8,
        low_nibble(op) == 1,
    ensures
        forall|i: u8|
            i < 8 ==> #[trigger] bit_set(execute_spec(s, op, rnd).v_reg[reg_x(op)], i) == (bit_set(
                s.v_reg[reg_x(op)],
                i,
            ) || bit_set(s.v_reg[reg_y(op)], i)),
        only_regs_changed(s, execute_spec(s, op, rnd), set![reg_x(op)]),
{
    lemma_bits_or(s.v_reg[reg_x(op)], s.v_reg[reg_y(op)]);
}

/// `8XY2`: each bit of the new `VX` is set exactly when it is set in both the
/// old `VX` and `VY`; nothing else changes.
pub proof fn law_and(s: Machine, op: u16, rnd: u8)
    requires
        s.well_sized(),
        kind_of(op) == 8,
        low_nibble(op) == 2,
    ensures
        forall|i: u8|
            i < 8 ==> #[trigger] bit_set(execute_spec(s, op, rnd).v_reg[reg_x(op)], i) == (bit_set(
                s.v_reg[reg_x(op)],
                i,
            ) && bit_set(s.v_reg[reg_y(op)], i)),
        only_regs_changed(s, execute_spec(s, op, rnd), set![reg_x(op)]),
{
    lemma_bits_and(s.v_reg[reg_x(op)], s.v_reg[reg_y(op)]);
}

/// `8XY3`: each bit of the new `VX` is set exactly when the old `VX` and `VY`
/// differ in it; nothing else changes.
pub proof fn law_xor(s: Machine, op: u16, rnd: u8)
    requires
        s.well_sized(),
        kind_of(op) == 8,
        low_nibble(op) == 3,
    ensures
        forall|i: u8|
            i < 8 ==> #[trigger] bit_set(execute_spec(s, op, rnd).v_reg[reg_x(op)], i) == (bit_set(
                s.v_reg[reg_x(op)],
                i,
            ) != bit_set(s.v_reg[reg_y(op)], i)),
        only_regs_changed(s, execute_spec(s, op, rnd), set![reg_x(op)]),
{
    lemma_bits_xor(s.v_reg[reg_x(op)], s.v_reg[reg_y(op)]);
}

/// `8XY4` with `X` not `F`: the new `VX` plus 256 times the new `VF` is the
/// sum of the old `VX` and `VY`, and `VF` is 0 or 1.
pub proof fn law_add_carry(s: Machine, op: u16, rnd: u8)
    requires
        s.well_sized(),
        kind_of(op) == 8,
        low_nibble(op) == 4,
        reg_x(op) != VF,
    ensures
        ({
            let t = execute_spec(s, op, rnd);
            &&& t.v_reg[VF as int] <= 1
            &&& t.v_reg[reg_x(op)] + 256 * t.v_reg[VF as int] == s.v_reg[reg_x(op)] + s.v_reg[reg_y(
                op,
            )]
        }),
        only_regs_changed(s, execute_spec(s, op, rnd), set![reg_x(op), VF as int]),
{
}

/// `8XY5` with `X` not `F`: the new `VX` is the old `VX` minus `VY`, plus 256
/// when that is negative; `VF` is 1 exactly when `VX >= VY` (no borrow).
pub proof fn law_sub_borrow(s: Machine, op: u16, rnd: u8)
    requires
        s.well_sized(),
        kind_of(op) == 8,
        low_nibble(op) == 5,
        reg_x(op) != VF,
    ensures
        ({
            let t = execute_spec(s, op, rnd);
            let vx = s.v_reg[reg_x(op)];
            let vy = s.v_reg[reg_y(op)];
            &&& t.v_reg[VF as int] == (if vx >= vy { 1u8 } else { 0u8 })
            &&& t.v_reg[reg_x(op)] + vy == vx + 256 * (1 - t.v_reg[VF as int])
        }),
        only_regs_changed(s, execute_spec(s, op, rnd), set![reg_x(op), VF as int]),
{
}

/// `8XY7` with `X` not `F`: the new `VX` is `VY` minus the old `VX`, plus 256
/// when that is negative; `VF` is 1 exactly when `VY >= VX` (no borrow).
pub proof fn law_subn_borrow(s: Machine, op: u16, rnd: u8)
    requires
        s.well_sized(),
        kind_of(op) == 8,
        low_nibble(op) == 7,
        reg_x(op) != VF,
    ensures
        ({
            let t = execute_spec(s, op, rnd);
            let vx = s.v_reg[reg_x(op)];
            let vy = s.v_reg[reg_y(op)];
            &&& t.v_reg[VF as int] == (if vy >= vx { 1u8 } else { 0u8 })
            &&& t.v_reg[reg_x(op)] + vx == vy + 256 * (1 - t.v_reg[VF as int])
        }),
        only_regs_changed(s, execute_spec(s, op, rnd), set![reg_x(op), VF as int]),
{
}

/// `8XY6` with `X` not `F`: twice the new `VX` plus the new `VF` gives back
/// the old `VX`; `VF` is the bit shifted out.
pub proof fn law_shift_right(s: Machine, op: u16, rnd: u8)
    requires
        s.well_sized(),
        kind_of(op) == 8,
        low_nibble(op) == 6,
        reg_x(op) != VF,
    ensures
        ({
            let t = execute_spec(s, op, rnd);
            &&& t.v_reg[VF as int] <= 1
            &&& 2 * t.v_reg[reg_x(op)] + t.v_reg[VF as int] == s.v_reg[reg_x(op)]
        }),
        only_regs_changed(s, execute_spec(s, op, rnd), set![reg_x(op), VF as int]),
{
}

/// `8XYE` with `X` not `F`: the new `VX` plus 256 times the new `VF` is twice
/// the old `VX`; `VF` is the bit shifted out.
pub proof fn law_shift_left(s: Machine, op: u16, rnd: u8)
    requires
        s.well_sized(),
        kind_of(op) == 8,
        low_nibble(op) == 0xE,
        reg_x(op) != VF,
    ensures
        ({
            let t = execute_spec(s, op, rnd);
            &&& t.v_reg[VF as int] <= 1
            &&& t.v_reg[reg_x(op)] + 256 * t.v_reg[VF as int] == 2 * s.v_reg[reg_x(op)]
        }),
        only_regs_changed(s, execute_spec(s, op, rnd), set![reg_x(op), VF as int]),
{
}

/// `6XNN`: `VX` becomes the low byte of the opcode.
pub proof fn law_load_immediate(s: Machine, op: u16, rnd: u8)
    requires
        s.well_sized(),
        kind_of(op) == 6,
    ensures
        execute_spec(s, op, rnd).v_reg[reg_x(op)] == low_byte(op),
        only_regs_changed(s, execute_spec(s, op, rnd), set![reg_x(op)]),
{
}

/// `7XNN`: the new `VX` is the old `VX` plus the low byte of the opcode,
/// modulo 256; no flag is set, nothing else changes.
pub proof fn law_add_immediate(s: Machine, op: u16, rnd: u8)
    requires
        s.well_sized(),
        kind_of(op) == 7,
    ensures
        (execute_spec(s, op, rnd).v_reg[reg_x(op)] - s.v_reg[reg_x(op)] - low_byte(op)) % 256 == 0,
        only_regs_changed(s, execute_spec(s, op, rnd), set![reg_x(op)]),
{
}

/// `CXNN`: each bit of the new `VX` is set exactly when it is set in both the
/// random byte and the low byte of the opcode.
pub proof fn law_random_masked(s: Machine, op: u16, rnd: u8)
    requires
        s.well_sized(),
        kind_of(op) == 0xC,
    ensures
        forall|i: u8|
            i < 8 ==> #[trigger] bit_set(execute_spec(s, op, rnd).v_reg[reg_x(op)], i) == (bit_set(
                rnd,
                i,
            ) && bit_set(low_byte(op) as u8, i)),
        only_regs_changed(s, execute_spec(s, op, rnd), set![reg_x(op)]),
{
    lemma_bits_and(rnd, low_byte(op) as u8);
}

/// A conditional skip: the program counter moves past one instruction
/// exactly when `cond`, stays otherwise, and nothing else changes.
pub open spec fn skips_when(s: Machine, t: Machine, cond: bool) -> bool {
    &&& only_pc_changed(s, t)
    &&& (t.pc == s.pc + SKIP) == cond
    &&& (t.pc == s.pc) == !cond
}

/// `3XNN`: skips exactly when `VX` equals the low byte of the opcode.
pub proof fn law_skip_if_equal_immediate(s: Machine, op: u16, rnd: u8)
    requires
        s.well_sized(),
        kind_of(op) == 3,
        s.pc + SKIP <= u16::MAX,
    ensures
        skips_when(s, execute_spec(s, op, rnd), s.v_reg[reg_x(op)] == low_byte(op)),
{
}

/// `4XNN`: skips exactly when `VX` differs from the low byte of the opcode.
pub proof fn law_skip_if_not_equal_immediate(s: Machine, op: u16, rnd: u8)
    requires
        s.well_sized(),
        kind_of(op) == 4,
        s.pc + SKIP <= u16::MAX,
    ensures
        skips_when(s, execute_spec(s, op, rnd), s.v_reg[reg_x(op)] != low_byte(op)),
{
}

/// `5XY0`: skips exactly when `VX` equals `VY`.
pub proof fn law_skip_if_equal(s: Machine, op: u16, rnd: u8)
    requires
        s.well_sized(),
        kind_of(op) == 5,
        low_nibble(op) == 0,
        s.pc + SKIP <= u16::MAX,
    ensures
        skips_when(s, execute_spec(s, op, rnd), s.v_reg[reg_x(op)] == s.v_reg[reg_y(op)]),
{
}

/// `9XY0`: skips exactly when `VX` differs from `VY`.
pub proof fn law_skip_if_not_equal(s: Machine, op: u16, rnd: u8)
    requires
        s.well_sized(),
        kind_of(op) == 9,
        low_nibble(op) == 0,
        s.pc + SKIP <= u16::MAX,
    ensures
        skips_when(s, execute_spec(s, op, rnd), s.v_reg[reg_x(op)] != s.v_reg[reg_y(op)]),
{
}

/// `9XY0` is the complement of `5XY0` with the same `X` and `Y` (exactly one
/// of them skips), and swapping `X` and `Y` does not change it.
pub proof fn law_skip_not_equal_complements_equal(
    s: Machine,
    eq: u16,
    ne: u16,
    swapped: u16,
    r1: u8,
    r2: u8,
    r3: u8,
)
    requires
        s.well_sized(),
        s.pc + SKIP <= u16::MAX,
        kind_of(eq) == 5 && low_nibble(eq) == 0,
        kind_of(ne) == 9 && low_nibble(ne) == 0,
        kind_of(swapped) == 9 && low_nibble(swapped) == 0,
        reg_x(eq) == reg_x(ne) && reg_y(eq) == reg_y(ne),
        reg_x(swapped) == reg_y(ne) && reg_y(swapped) == reg_x(ne),
    ensures
        execute_spec(s, eq, r1).pc != execute_spec(s, ne, r2).pc,
        execute_spec(s, ne, r2) == execute_spec(s, swapped, r3),
{
}

/// `EX9E`: skips exactly when the key numbered `VX` is held down.
pub proof fn law_skip_if_key(s: Machine, op: u16, rnd: u8)
    requires
        s.well_sized(),
        kind_of(op) == 0xE,
        low_byte(op) == 0x9E,
        s.v_reg[reg_x(op)] < 16,
        s.pc + SKIP <= u16::MAX,
    ensures
        skips_when(s, execute_spec(s, op, rnd), s.keys[s.v_reg[reg_x(op)] as int]),
{
}

/// `EXA1`: skips exactly when the key numbered `VX` is not held down.
pub proof fn law_skip_if_not_key(s: Machine, op: u16, rnd: u8)
    requires
        s.well_sized(),
        kind_of(op) == 0xE,
        low_byte(op) == 0xA1,
        s.v_reg[reg_x(op)] < 16,
        s.pc + SKIP <= u16::MAX,
    ensures
        skips_when(s, execute_spec(s, op, rnd), !s.keys[s.v_reg[reg_x(op)] as int]),
{
}

/// `1NNN`: the program counter becomes the low twelve bits of the opcode.
pub proof fn law_jump(s: Machine, op: u16, rnd: u8)
    requires
        s.well_sized(),
        kind_of(op) == 1,
    ensures
        execute_spec(s, op, rnd).pc == address_of(op),
        only_pc_changed(s, execute_spec(s, op, rnd)),
{
}

/// `BNNN`: the program counter becomes the low twelve bits of the opcode plus
/// `V0`, as integers.
pub proof fn law_jump_offset(s: Machine, op: u16, rnd: u8)
    requires
        s.well_sized(),
        kind_of(op) == 0xB,
    ensures
        execute_spec(s, op, rnd).pc - address_of(op) == s.v_reg[0],
        only_pc_changed(s, execute_spec(s, op, rnd)),
{
}

/// `2NNN`: the return address (the program counter, already past the call)
/// goes on top of the stack, the stack grows by one, and the program counter
/// becomes the low twelve bits of the opcode.
pub proof fn law_call(s: Machine, op: u16, rnd: u8)
    requires
        s.well_sized(),
        kind_of(op) == 2,
        s.sp < 16,
    ensures
        ({
            let t = execute_spec(s, op, rnd);
            &&& t.pc == address_of(op)
            &&& t.sp == s.sp + 1
            &&& t.stack[t.sp - 1] == s.pc
            &&& forall|k: int| 0 <= k < 16 && k != s.sp ==> #[trigger] t.stack[k] == s.stack[k]
            &&& t == Machine { pc: t.pc, sp: t.sp, stack: t.stack, ..s }
        }),
{
}

/// `00EE`: the program counter becomes the address on top of the stack, and
/// the stack shrinks by one.
pub proof fn law_return(s: Machine, op: u16, rnd: u8)
    requires
        s.well_sized(),
        op == 0x00EE,
        1 <= s.sp <= 16,
    ensures
        ({
            let t = execute_spec(s, op, rnd);
            &&& t.pc == s.stack[s.sp - 1]
            &&& t.sp + 1 == s.sp
            &&& t == Machine { pc: t.pc, sp: t.sp, ..s }
        }),
{
}

/// `00E0`: every pixel goes dark; nothing else changes.
pub proof fn law_clear_screen(s: Machine, op: u16, rnd: u8)
    requires
        s.well_sized(),
        op == 0x00E0,
    ensures
        ({
            let t = execute_spec(s, op, rnd);
            &&& t.screen.len() == s.screen.len()
            &&& forall|idx: int| 0 <= idx < t.screen.len() ==> #[trigger] t.screen[idx] == 0
            &&& t == Machine { screen: t.screen, ..s }
        }),
{
}

/// `ANNN`: `I` becomes the low twelve bits of the opcode.
pub proof fn law_set_index(s: Machine, op: u16, rnd: u8)
    requires
        s.well_sized(),
        kind_of(op) == 0xA,
    ensures
        execute_spec(s, op, rnd).i_reg == address_of(op),
        execute_spec(s, op, rnd) == (Machine { i_reg: execute_spec(s, op, rnd).i_reg, ..s }),
{
}

/// `FX1E`: the new `I` is the old `I` plus `VX`, modulo 65536.
pub proof fn law_add_index(s: Machine, op: u16, rnd: u8)
    requires
        s.well_sized(),
        kind_of(op) == 0xF,
        low_byte(op) == 0x1E,
    ensures
        (execute_spec(s, op, rnd).i_reg - s.i_reg - s.v_reg[reg_x(op)]) % 65536 == 0,
        execute_spec(s, op, rnd) == (Machine { i_reg: execute_spec(s, op, rnd).i_reg, ..s }),
{
}

/// `FX29`: `I` becomes the address of the font glyph of digit `VX`: five
/// bytes per glyph from address 0.
pub proof fn law_font_address(s: Machine, op: u16, rnd: u8)
    requires
        s.well_sized(),
        kind_of(op) == 0xF,
        low_byte(op) == 0x29,
    ensures
        execute_spec(s, op, rnd).i_reg == 5 * s.v_reg[reg_x(op)],
        execute_spec(s, op, rnd) == (Machine { i_reg: execute_spec(s, op, rnd).i_reg, ..s }),
{
}

/// `FX07`, `FX15`, `FX18`: `VX` receives the delay timer, or the delay or
/// sound timer receives `VX`.
pub proof fn law_timer_transfers(s: Machine, op: u16, rnd: u8)
    requires
        s.well_sized(),
        kind_of(op) == 0xF,
        low_byte(op) == 0x07 || low_byte(op) == 0x15 || low_byte(op) == 0x18,
    ensures
        ({
            let t = execute_spec(s, op, rnd);
            let vx = s.v_reg[reg_x(op)];
            &&& low_byte(op) == 0x07 ==> t.v_reg[reg_x(op)] == s.dt && only_regs_changed(
                s,
                t,
                set![reg_x(op)],
            )
            &&& low_byte(op) == 0x15 ==> t == Machine { dt: vx, ..s }
            &&& low_byte(op) == 0x18 ==> t == Machine { st: vx, ..s }
        }),
{
}

/// `FX55`: for every `k <= X`, memory at `I + k` receives `Vk`; no other byte
/// of memory and nothing else changes.
pub proof fn law_store_registers(s: Machine, op: u16, rnd: u8)
    requires
        s.well_sized(),
        kind_of(op) == 0xF,
        low_byte(op) == 0x55,
        s.i_reg + reg_x(op) < 4096,
    ensures
        ({
            let t = execute_spec(s, op, rnd);
            let i = s.i_reg as int;
            &&& t.ram.len() == s.ram.len()
            &&& forall|k: int| 0 <= k <= reg_x(op) ==> #[trigger] t.ram[i + k] == s.v_reg[k]
            &&& forall|a: int|
                0 <= a < t.ram.len() && !(i <= a <= i + reg_x(op)) ==> #[trigger] t.ram[a]
                    == s.ram[a]
            &&& t == Machine { ram: t.ram, ..s }
        }),
{
    let t = execute_spec(s, op, rnd);
    let i = s.i_reg as int;
    assert forall|k: int| 0 <= k <= reg_x(op) implies #[trigger] t.ram[i + k] == s.v_reg[k] by {
        assert(i + k - i == k);
    }
}

/// `FX65`: for every `k <= X`, `Vk` receives the byte at `I + k`, whatever it
/// is; the other registers and everything else stay.
pub proof fn law_load_registers(s: Machine, op: u16, rnd: u8)
    requires
        s.well_sized(),
        kind_of(op) == 0xF,
        low_byte(op) == 0x65,
        s.i_reg + reg_x(op) < 4096,
    ensures
        ({
            let t = execute_spec(s, op, rnd);
            let i = s.i_reg as int;
            &&& t.v_reg.len() == s.v_reg.len()
            &&& forall|k: int| 0 <= k <= reg_x(op) ==> #[trigger] t.v_reg[k] == s.ram[i + k]
            &&& forall|k: int| reg_x(op) < k < 16 ==> #[trigger] t.v_reg[k] == s.v_reg[k]
            &&& t == Machine { v_reg: t.v_reg, ..s }
        }),
{
}

/// `FX0A`: with some key held down, `VX` receives the number of the lowest
/// key held (key 0 included) and the program counter stays past the
/// instruction; with no key held, only the program counter moves, back onto
/// the instruction.
pub proof fn law_wait_key(s: Machine, op: u16, rnd: u8)
    requires
        s.well_sized(),
        kind_of(op) == 0xF,
        low_byte(op) == 0x0A,
        s.pc >= SKIP,
    ensures
        ({
            let t = execute_spec(s, op, rnd);
            let held = exists|k: int| 0 <= k < 16 && #[trigger] s.keys[k];
            &&& held ==> {
                let v = t.v_reg[reg_x(op)] as int;
                &&& 0 <= v < 16
                &&& s.keys[v]
                &&& forall|j: int| 0 <= j < v ==> !#[trigger] s.keys[j]
                &&& only_regs_changed(s, t, set![reg_x(op)])
            }
            &&& !held ==> t.pc + SKIP == s.pc && only_pc_changed(s, t)
        }),
{
    let t = execute_spec(s, op, rnd);
    if exists|k: int| 0 <= k < 16 && #[trigger] s.keys[k] {
        let w = choose|k: int| 0 <= k < 16 && #[trigger] s.keys[k];
        lemma_first_key_exists(s.keys, w);
    }
}

/// When some key is held down, the lowest one is.
proof fn lemma_first_key_exists(keys: Seq<bool>, w: int)
    requires
        0 <= w < keys.len(),
        keys[w],
    ensures
        exists|k: int| crate::machine::is_first_pressed(keys, k),
    decreases w,
{
    if exists|j: int| 0 <= j < w && #[trigger] keys[j] {
        let j = choose|j: int| 0 <= j < w && #[trigger] keys[j];
        lemma_first_key_exists(keys, j);
    } else {
        assert(crate::machine::is_first_pressed(keys, w));
    }
}

/// `0000` changes nothing.
pub proof fn law_nop(s: Machine, rnd: u8)
    ensures
        execute_spec(s, 0x0000, rnd) == s,
{
}

/// The screen pixel that row `r`, column `c` of a sprite drawn at `(vx, vy)`
/// lands on: columns wrap at 64, rows at 32, pixels go row by row.
pub open spec fn pixel_at(vx: u8, vy: u8, r: int, c: int) -> int {
    (vx + c) % 64 + 64 * ((vy + r) % 32)
}

/// Column `c` of a sprite row, counted from the most significant bit.
proof fn lemma_sprite_column_bit(row: u8)
    by (bit_vector)
    ensures
        forall|c: u16| c < 8 ==> #[trigger] sprite_bit(row, c) == bit_set(row, (7 - c) as u8),
{
}

/// `DXYN`: for every row `r < N` and column `c < 8` whose bit (most
/// significant first) is set in the byte at `I + r`, the pixel at
/// `((VX + c) mod 64, (VY + r) mod 32)` is flipped; every pixel that no such
/// sprite pixel lands on keeps its value; only the screen and `VF` change.
pub proof fn law_draw(s: Machine, op: u16, rnd: u8)
    requires
        s.well_sized(),
        kind_of(op) == 0xD,
        low_nibble(op) == 0 || s.i_reg + low_nibble(op) <= 4096,
    ensures
        ({
            let t = execute_spec(s, op, rnd);
            let vx = s.v_reg[reg_x(op)];
            let vy = s.v_reg[reg_y(op)];
            let n = low_nibble(op);
            let i = s.i_reg as int;
            &&& t.screen.len() == s.screen.len()
            &&& forall|r: int, c: int|
                0 <= r < n && 0 <= c < 8 && bit_set(s.ram[i + r], (7 - c) as u8) ==> t.screen[#[trigger] pixel_at(vx, vy, r, c)]
                    == s.screen[pixel_at(vx, vy, r, c)] ^ 1u8
            &&& forall|idx: int|
                0 <= idx < s.screen.len() && (forall|r: int, c: int|
                    0 <= r < n && 0 <= c < 8 && bit_set(s.ram[i + r], (7 - c) as u8) ==> #[trigger] pixel_at(vx, vy, r, c) != idx)
                    ==> #[trigger] t.screen[idx] == s.screen[idx]
            &&& only_regs_changed(s, Machine { screen: s.screen, ..t }, set![VF as int])
        }),
{
    let t = execute_spec(s, op, rnd);
    let vx = s.v_reg[reg_x(op)];
    let vy = s.v_reg[reg_y(op)];
    let n = low_nibble(op);
    let i = s.i_reg as int;
    assert forall|r: int, c: int|
        0 <= r < n && 0 <= c < 8 && bit_set(s.ram[i + r], (7 - c) as u8) implies t.screen[#[trigger] pixel_at(vx, vy, r, c)]
        == s.screen[pixel_at(vx, vy, r, c)] ^ 1u8 by {
        lemma_target(vx, vy, r, c);
        lemma_sprite_column_bit(s.ram[i + r]);
        assert(sprite_bit(s.ram[i + r], c as u16));
        assert(pixel_at(vx, vy, r, c) == draw_target(vx, vy, r, c));
        assert(sprite_covers(s, vx, vy, n, draw_target(vx, vy, r, c)));
    }
    assert forall|idx: int|
        0 <= idx < s.screen.len() && (forall|r: int, c: int|
            0 <= r < n && 0 <= c < 8 && bit_set(s.ram[i + r], (7 - c) as u8) ==> #[trigger] pixel_at(vx, vy, r, c) != idx)
        implies #[trigger] t.screen[idx] == s.screen[idx] by {
        if sprite_covers(s, vx, vy, n, idx) {
            let c = crate::machine::sprite_col(vx, idx);
            let r = crate::machine::sprite_row(vy, idx);
            lemma_target(vx, vy, r, c);
            lemma_sprite_column_bit(s.ram[i + r]);
            assert(bit_set(s.ram[i + r], (7 - c) as u8));
            assert(pixel_at(vx, vy, r, c) == idx);
        }
    }
    assert(Machine { screen: s.screen, ..t }.v_reg.len() == s.v_reg.len());
}

/// One cycle reads the opcode high byte first from the program counter and
/// the byte after it, moves past both bytes, and executes the opcode.
pub proof fn law_fetch(s: Machine, rnd: u8)
    requires
        s.well_sized(),
        s.fetch_ok(),
    ensures
        s.fetch_op() / 256 == s.ram[s.pc as int],
        s.fetch_op() % 256 == s.ram[s.pc + 1],
        s.tick_spec(rnd) == execute_spec(Machine { pc: (s.pc + 2) as u16, ..s }, s.fetch_op(), rnd),
{
}

/// One timer tick: each timer that is running drops by exactly one, a timer
/// at zero stays at zero, and nothing else changes.
pub proof fn law_timers(s: Machine)
    ensures
        ({
            let t = s.timers_ticked();
            &&& s.dt > 0 ==> t.dt + 1 == s.dt
            &&& s.dt == 0 ==> t.dt == 0
            &&& s.st > 0 ==> t.st + 1 == s.st
            &&& s.st == 0 ==> t.st == 0
            &&& t == Machine { dt: t.dt, st: t.st, ..s }
        }),
{
}

/// A key press changes that key, and only that key, to `pressed`.
pub proof fn law_key(s: Machine, idx: int, pressed: bool)
    requires
        s.well_sized(),
        0 <= idx < 16,
    ensures
        ({
            let t = s.with_key(idx, pressed);
            &&& t.keys.len() == s.keys.len()
            &&& t.keys[idx] == pressed
            &&& forall|k: int| 0 <= k < 16 && k != idx ==> #[trigger] t.keys[k] == s.keys[k]
            &&& t == Machine { keys: t.keys, ..s }
        }),
{
}

/// Loading a program puts byte `k` of it at address `0x200 + k`; every other
/// byte of memory and everything else stays.
pub proof fn law_load(s: Machine, data: Seq<u8>)
    requires
        s.well_sized(),
        0x200 + data.len() <= 4096,
    ensures
        ({
            let t = s.loaded(data);
            &&& t.ram.len() == s.ram.len()
            &&& forall|k: int| 0 <= k < data.len() ==> #[trigger] t.ram[0x200 + k] == data[k]
            &&& forall|a: int|
                0 <= a < s.ram.len() && !(0x200 <= a < 0x200 + data.len()) ==> #[trigger] t.ram[a]
                    == s.ram[a]
            &&& t == Machine { ram: t.ram, ..s }
        }),
{
    let t = s.loaded(data);
    assert forall|k: int| 0 <= k < data.len() implies #[trigger] t.ram[0x200 + k] == data[k] by {
        assert(0x200 + k - 0x200 == k);
    }
}

/// A machine just powered on: the font in the first 80 bytes, every other
/// byte, register, key, timer and pixel zero or released, an empty stack,
/// `I` zero, and the program counter at `0x200`.
pub proof fn law_initial()
    ensures
        ({
            let s = Machine::initial();
            &&& s.well_sized()
            &&& s.pc == 0x200 && s.i_reg == 0 && s.sp == 0 && s.dt == 0 && s.st == 0
            &&& forall|k: int| 0 <= k < 80 ==> #[trigger] s.ram[k] == font_spec()[k]
            &&& forall|k: int| 80 <= k < 4096 ==> #[trigger] s.ram[k] == 0
            &&& forall|k: int| 0 <= k < 16 ==> #[trigger] s.v_reg[k] == 0 && !s.keys[k]
                && s.stack[k] == 0
            &&& forall|k: int| 0 <= k < 2048 ==> #[trigger] s.screen[k] == 0
        }),
{
    assert(FONTSET_SIZE == 80);
}

/// The glyph of digit `d` is five rows with the low nibble clear; the glyph
/// of 0 is a closed box and that of 1 a single column.
pub proof fn law_font_glyphs()
    ensures
        font_spec().len() == 80,
        forall|k: int| 0 <= k < 80 ==> (#[trigger] font_spec()[k]) % 16 == 0,
        font_spec().subrange(0, 5) == seq![0xF0u8, 0x90, 0x90, 0x90, 0xF0],
        font_spec().subrange(5, 10) == seq![0x20u8, 0x60, 0x20, 0x20, 0x70],
{
    assert(font_spec().subrange(0, 5) =~= seq![0xF0u8, 0x90, 0x90, 0x90, 0xF0]);
    assert(font_spec().subrange(5, 10) =~= seq![0x20u8, 0x60, 0x20, 0x20, 0x70]);
}

} // verus!
