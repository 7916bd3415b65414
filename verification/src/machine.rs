//! The mathematical model of a CHIP-8 machine and the meaning of each
//! instruction over it.
//!
//! `Machine` is what an [`crate::Emu`] is, seen as sequences and integers.
//! `execute_spec` gives the state after one instruction, `execute_ok` the
//! states and opcodes on which that instruction is defined (the machine faults
//! on the others: an unknown opcode, a stack overflow or underflow, a memory
//! access outside the 4 KiB address space, a key index outside the keypad).
use vstd::prelude::*;

verus! {

/// Width of the display, in pixels.
pub const SCREEN_WIDTH: usize = 64;

/// Height of the display, in pixels.
pub const SCREEN_HEIGHT: usize = 32;

/// Number of pixels of the display, one byte each, row by row.
pub const SCREEN_SIZE: usize = SCREEN_WIDTH * SCREEN_HEIGHT;

/// Bytes of addressable memory.
pub const RAM_SIZE: usize = 4096;

/// Number of general purpose registers `V0` to `VF`.
pub const NUM_REGS: usize = 16;

/// Depth of the call stack.
pub const STACK_SIZE: usize = 16;

/// Number of keys of the hexadecimal keypad.
pub const NUM_KEYS: usize = 16;

/// Bytes taken by the built-in font: sixteen glyphs of five rows.
pub const FONTSET_SIZE: usize = 80;

/// Index of the flag register `VF`.
pub const VF: usize = 0xF;

/// Address at which programs are loaded and execution starts.
pub const START_ADDR: u16 = 0x200;

/// Size of one instruction, in bytes.
pub const SKIP: u16 = 2;

/// The state of a CHIP-8 machine.
#[verifier::ext_equal]
pub struct Machine {
    pub pc: u16,
    pub ram: Seq<u8>,
    pub screen: Seq<u8>,
    pub v_reg: Seq<u8>,
    pub i_reg: u16,
    pub sp: u16,
    pub stack: Seq<u16>,
    pub keys: Seq<bool>,
    pub dt: u8,
    pub st: u8,
}

/// The built-in font: glyphs `0` to `F`, each five rows of four pixels held
/// in the high nibble of a byte.
pub open spec fn font_spec() -> Seq<u8> {
    seq![
        0xF0u8, 0x90, 0x90, 0x90, 0xF0,
        0x20, 0x60, 0x20, 0x20, 0x70,
        0xF0, 0x10, 0xF0, 0x80, 0xF0,
        0xF0, 0x10, 0xF0, 0x10, 0xF0,
        0x90, 0x90, 0xF0, 0x10, 0x10,
        0xF0, 0x80, 0xF0, 0x10, 0xF0,
        0xF0, 0x80, 0xF0, 0x90, 0xF0,
        0xF0, 0x10, 0x20, 0x40, 0x40,
        0xF0, 0x90, 0xF0, 0x90, 0xF0,
        0xF0, 0x90, 0xF0, 0x10, 0xF0,
        0xF0, 0x90, 0xF0, 0x90, 0x90,
        0xE0, 0x90, 0xE0, 0x90, 0xE0,
        0xF0, 0x80, 0x80, 0x80, 0xF0,
        0xE0, 0x90, 0x90, 0x90, 0xE0,
        0xF0, 0x80, 0xF0, 0x80, 0xF0,
        0xF0, 0x80, 0xF0, 0x80, 0x80,
    ]
}

impl Machine {
    /// Every component has the size of the hardware it stands for.
    pub open spec fn well_sized(self) -> bool {
        &&& self.ram.len() == RAM_SIZE
        &&& self.screen.len() == SCREEN_SIZE
        &&& self.v_reg.len() == NUM_REGS
        &&& self.stack.len() == STACK_SIZE
        &&& self.keys.len() == NUM_KEYS
    }

    /// A freshly powered machine: the font at the bottom of memory, all else
    /// zero, and the program counter at the start address.
    pub open spec fn initial() -> Machine {
        Machine {
            pc: START_ADDR,
            ram: Seq::new(RAM_SIZE as nat, |k: int| if k < FONTSET_SIZE { font_spec()[k] } else { 0u8 }),
            screen: Seq::new(SCREEN_SIZE as nat, |k: int| 0u8),
            v_reg: Seq::new(NUM_REGS as nat, |k: int| 0u8),
            i_reg: 0,
            sp: 0,
            stack: Seq::new(STACK_SIZE as nat, |k: int| 0u16),
            keys: Seq::new(NUM_KEYS as nat, |k: int| false),
            dt: 0,
            st: 0,
        }
    }

    /// The machine with its program counter set to `pc`.
    pub open spec fn with_pc(self, pc: int) -> Machine {
        Machine { pc: pc as u16, ..self }
    }

    /// The machine with register `x` set to `val`.
    pub open spec fn with_reg(self, x: int, val: u8) -> Machine {
        Machine { v_reg: self.v_reg.update(x, val), ..self }
    }

    /// The machine with register `x` set to `val`, then `VF` set to `flag`.
    pub open spec fn with_reg_flag(self, x: int, val: u8, flag: u8) -> Machine {
        Machine { v_reg: self.v_reg.update(x, val).update(VF as int, flag), ..self }
    }

    /// The machine that moves on past the next instruction when `cond` holds.
    pub open spec fn skip_if(self, cond: bool) -> Machine {
        if cond {
            self.with_pc(self.pc + SKIP)
        } else {
            self
        }
    }

    /// The timers after one 60 Hz tick: each counts down, and stops at zero.
    pub open spec fn timers_ticked(self) -> Machine {
        Machine {
            dt: if self.dt > 0 { (self.dt - 1) as u8 } else { 0 },
            st: if self.st > 0 { (self.st - 1) as u8 } else { 0 },
            ..self
        }
    }

    /// The machine with key `idx` held down (`pressed`) or released.
    pub open spec fn with_key(self, idx: int, pressed: bool) -> Machine {
        Machine { keys: self.keys.update(idx, pressed), ..self }
    }

    /// The machine with `data` copied into memory from the start address on.
    pub open spec fn loaded(self, data: Seq<u8>) -> Machine {
        Machine {
            ram: Seq::new(
                self.ram.len(),
                |k: int|
                    if START_ADDR <= k < START_ADDR + data.len() {
                        data[k - START_ADDR]
                    } else {
                        self.ram[k]
                    },
            ),
            ..self
        }
    }

    /// The opcode at the program counter: two bytes, high byte first.
    pub open spec fn fetch_op(self) -> u16 {
        (self.ram[self.pc as int] * 256 + self.ram[self.pc + 1]) as u16
    }

    /// The instruction at the program counter can be fetched: both of its
    /// bytes lie in memory.
    pub open spec fn fetch_ok(self) -> bool {
        self.pc + 1 < RAM_SIZE
    }

    /// One cycle: fetch the opcode, move past it, execute it. `rnd` is the
    /// byte that a random draw gives, which only `CXNN` reads.
    pub open spec fn tick_spec(self, rnd: u8) -> Machine {
        execute_spec(self.with_pc(self.pc + SKIP), self.fetch_op(), rnd)
    }

    /// One cycle is defined: the fetch and then the instruction.
    pub open spec fn tick_ok(self) -> bool {
        self.fetch_ok() && execute_ok(self.with_pc(self.pc + SKIP), self.fetch_op())
    }
}

/// The high nibble of an opcode: the instruction group.
pub open spec fn op_kind(op: u16) -> u16 {
    op / 4096
}

/// The second nibble: the register `X`.
pub open spec fn op_x(op: u16) -> u16 {
    (op / 256) % 16
}

/// The third nibble: the register `Y`.
pub open spec fn op_y(op: u16) -> u16 {
    (op / 16) % 16
}

/// The low nibble `N`.
pub open spec fn op_n(op: u16) -> u16 {
    op % 16
}

/// The low byte `NN`.
pub open spec fn op_nn(op: u16) -> u8 {
    (op % 256) as u8
}

/// The low twelve bits `NNN`: an address.
pub open spec fn op_nnn(op: u16) -> u16 {
    op % 4096
}

/// The index of the first key held down, if any.
pub open spec fn first_pressed(keys: Seq<bool>) -> Option<int> {
    if exists|k: int| 0 <= k < keys.len() && #[trigger] keys[k] {
        Some(choose|k: int| is_first_pressed(keys, k))
    } else {
        None
    }
}

/// Key `k` is held down and no key before it is.
pub open spec fn is_first_pressed(keys: Seq<bool>, k: int) -> bool {
    &&& 0 <= k < keys.len()
    &&& keys[k]
    &&& forall|j: int| 0 <= j < k ==> !#[trigger] keys[j]
}

/// Column `c` (0 is the leftmost) of a sprite row is lit.
pub open spec fn sprite_bit(row: u8, c: u16) -> bool {
    row & (0x80u8 >> c) != 0
}

/// The pixel that sprite row `r`, column `c` lands on when the sprite is
/// drawn at `(vx, vy)`; the sprite wraps around both edges of the screen.
pub open spec fn draw_target(vx: u8, vy: u8, r: int, c: int) -> int {
    (vx + c) % (SCREEN_WIDTH as int) + SCREEN_WIDTH * ((vy + r) % (SCREEN_HEIGHT as int))
}

/// The sprite column that lands on pixel `idx`, counted from `vx` with wrap.
pub open spec fn sprite_col(vx: u8, idx: int) -> int {
    (idx % (SCREEN_WIDTH as int) - vx) % (SCREEN_WIDTH as int)
}

/// The sprite row that lands on pixel `idx`, counted from `vy` with wrap.
pub open spec fn sprite_row(vy: u8, idx: int) -> int {
    (idx / (SCREEN_WIDTH as int) - vy) % (SCREEN_HEIGHT as int)
}

/// Drawing the `n`-row sprite at `I` at `(vx, vy)` flips pixel `idx`: a lit
/// sprite pixel lands on it.
pub open spec fn sprite_covers(s: Machine, vx: u8, vy: u8, n: int, idx: int) -> bool {
    let c = sprite_col(vx, idx);
    let r = sprite_row(vy, idx);
    &&& c < 8
    &&& r < n
    &&& sprite_bit(s.ram[s.i_reg + r], c as u16)
}

/// The screen after drawing: every covered pixel flipped, the others kept.
pub open spec fn drawn_screen(s: Machine, vx: u8, vy: u8, n: int) -> Seq<u8> {
    Seq::new(
        s.screen.len(),
        |idx: int|
            if sprite_covers(s, vx, vy, n, idx) {
                s.screen[idx] ^ 1u8
            } else {
                s.screen[idx]
            },
    )
}

/// The bitwise or of the old values of the pixels under the first `k`
/// sprite pixels (row by row, left to right) that are lit.
pub open spec fn collision_upto(s: Machine, vx: u8, vy: u8, k: int) -> u8
    decreases k,
{
    if k <= 0 {
        0
    } else {
        let r = (k - 1) / 8;
        let c = (k - 1) % 8;
        let prev = collision_upto(s, vx, vy, k - 1);
        if sprite_bit(s.ram[s.i_reg + r], c as u16) {
            prev | s.screen[draw_target(vx, vy, r, c)]
        } else {
            prev
        }
    }
}

/// `DXYN`: draw the `n`-row sprite at `I` at `(VX, VY)` by flipping pixels;
/// `VF` is the or of the old values of the flipped pixels.
pub open spec fn draw_spec(s: Machine, x: int, y: int, n: int) -> Machine {
    let vx = s.v_reg[x];
    let vy = s.v_reg[y];
    Machine {
        screen: drawn_screen(s, vx, vy, n),
        v_reg: s.v_reg.update(VF as int, collision_upto(s, vx, vy, 8 * n)),
        ..s
    }
}

/// `8XYN`: register to register arithmetic and logic.
pub open spec fn alu_spec(s: Machine, x: int, y: int, n: int) -> Machine {
    let vx = s.v_reg[x];
    let vy = s.v_reg[y];
    if n == 0 {
        s.with_reg(x, vy)
    } else if n == 1 {
        s.with_reg(x, vx | vy)
    } else if n == 2 {
        s.with_reg(x, vx & vy)
    } else if n == 3 {
        s.with_reg(x, vx ^ vy)
    } else if n == 4 {
        s.with_reg_flag(x, ((vx + vy) % 256) as u8, if vx + vy > 255 { 1 } else { 0 })
    } else if n == 5 {
        s.with_reg_flag(x, ((vx - vy) % 256) as u8, if vx < vy { 0 } else { 1 })
    } else if n == 6 {
        s.with_reg_flag(x, vx / 2, vx % 2)
    } else if n == 7 {
        s.with_reg_flag(x, ((vy - vx) % 256) as u8, if vy < vx { 0 } else { 1 })
    } else {
        s.with_reg_flag(x, ((vx * 2) % 256) as u8, vx / 128)
    }
}

/// `FX33`: the decimal digits of `VX` at `I`, `I + 1`, `I + 2`.
pub open spec fn bcd_spec(s: Machine, x: int) -> Machine {
    let vx = s.v_reg[x];
    let i = s.i_reg as int;
    Machine {
        ram: s.ram.update(i, vx / 100).update(i + 1, (vx / 10) % 10).update(i + 2, vx % 10),
        ..s
    }
}

/// `FX55`: registers `V0` to `VX` stored in memory from `I` on.
pub open spec fn store_regs_spec(s: Machine, x: int) -> Machine {
    let i = s.i_reg as int;
    Machine {
        ram: Seq::new(
            s.ram.len(),
            |k: int|
                if i <= k <= i + x {
                    s.v_reg[k - i]
                } else {
                    s.ram[k]
                },
        ),
        ..s
    }
}

/// `FX65`: registers `V0` to `VX` loaded from memory from `I` on.
pub open spec fn load_regs_spec(s: Machine, x: int) -> Machine {
    let i = s.i_reg as int;
    Machine {
        v_reg: Seq::new(
            s.v_reg.len(),
            |k: int|
                if k <= x {
                    s.ram[i + k]
                } else {
                    s.v_reg[k]
                },
        ),
        ..s
    }
}

/// `FX0A`: wait for a key. The first key held down goes to `VX`; with none,
/// the program counter moves back so that the instruction runs again.
pub open spec fn wait_key_spec(s: Machine, x: int) -> Machine {
    match first_pressed(s.keys) {
        Some(k) => s.with_reg(x, k as u8),
        None => s.with_pc(s.pc - SKIP),
    }
}

/// The machine after executing `op`, the program counter already past it.
/// `rnd` is the random byte that `CXNN` masks.
pub open spec fn execute_spec(s: Machine, op: u16, rnd: u8) -> Machine {
    let x = op_x(op) as int;
    let y = op_y(op) as int;
    let n = op_n(op) as int;
    let nn = op_nn(op);
    let nnn = op_nnn(op);
    let vx = s.v_reg[x];
    let vy = s.v_reg[y];
    match (op_kind(op), op_x(op), op_y(op), op_n(op)) {
        (0, 0, 0, 0) => s,
        (0, 0, 0xE, 0) => Machine { screen: Seq::new(SCREEN_SIZE as nat, |k: int| 0u8), ..s },
        (0, 0, 0xE, 0xE) => Machine { pc: s.stack[s.sp - 1], sp: (s.sp - 1) as u16, ..s },
        (1, _, _, _) => s.with_pc(nnn as int),
        (2, _, _, _) => Machine {
            stack: s.stack.update(s.sp as int, s.pc),
            sp: (s.sp + 1) as u16,
            pc: nnn,
            ..s
        },
        (3, _, _, _) => s.skip_if(vx == nn),
        (4, _, _, _) => s.skip_if(vx != nn),
        (5, _, _, 0) => s.skip_if(vx == vy),
        (6, _, _, _) => s.with_reg(x, nn),
        (7, _, _, _) => s.with_reg(x, ((vx + nn) % 256) as u8),
        (8, _, _, _) => alu_spec(s, x, y, n),
        (9, _, _, 0) => s.skip_if(vx != vy),
        (0xA, _, _, _) => Machine { i_reg: nnn, ..s },
        (0xB, _, _, _) => s.with_pc(s.v_reg[0] + nnn),
        (0xC, _, _, _) => s.with_reg(x, rnd & nn),
        (0xD, _, _, _) => draw_spec(s, x, y, n),
        (0xE, _, 9, 0xE) => s.skip_if(s.keys[vx as int]),
        (0xE, _, 0xA, 1) => s.skip_if(!s.keys[vx as int]),
        (0xF, _, 0, 7) => s.with_reg(x, s.dt),
        (0xF, _, 0, 0xA) => wait_key_spec(s, x),
        (0xF, _, 1, 5) => Machine { dt: vx, ..s },
        (0xF, _, 1, 8) => Machine { st: vx, ..s },
        (0xF, _, 1, 0xE) => Machine { i_reg: ((s.i_reg + vx) % 0x10000) as u16, ..s },
        (0xF, _, 2, 9) => Machine { i_reg: (vx * 5) as u16, ..s },
        (0xF, _, 3, 3) => bcd_spec(s, x),
        (0xF, _, 5, 5) => store_regs_spec(s, x),
        (0xF, _, 6, 5) => load_regs_spec(s, x),
        _ => s,
    }
}

/// The program counter can move past one more instruction when `cond`.
pub open spec fn skip_ok(s: Machine, cond: bool) -> bool {
    cond ==> s.pc + SKIP <= u16::MAX
}

/// `op` is an instruction of the machine, and executing it in `s` stays
/// within the stack, the memory and the keypad.
pub open spec fn execute_ok(s: Machine, op: u16) -> bool {
    let x = op_x(op) as int;
    let y = op_y(op) as int;
    let n = op_n(op) as int;
    let nn = op_nn(op);
    let vx = s.v_reg[x];
    let vy = s.v_reg[y];
    let i = s.i_reg as int;
    match (op_kind(op), op_x(op), op_y(op), op_n(op)) {
        (0, 0, 0, 0) => true,
        (0, 0, 0xE, 0) => true,
        (0, 0, 0xE, 0xE) => 1 <= s.sp <= STACK_SIZE,
        (1, _, _, _) => true,
        (2, _, _, _) => s.sp < STACK_SIZE,
        (3, _, _, _) => skip_ok(s, vx == nn),
        (4, _, _, _) => skip_ok(s, vx != nn),
        (5, _, _, 0) => skip_ok(s, vx == vy),
        (6, _, _, _) => true,
        (7, _, _, _) => true,
        (8, _, _, _) => n <= 7 || n == 0xE,
        (9, _, _, 0) => skip_ok(s, vx != vy),
        (0xA, _, _, _) => true,
        (0xB, _, _, _) => true,
        (0xC, _, _, _) => true,
        (0xD, _, _, _) => n == 0 || i + n <= RAM_SIZE,
        (0xE, _, 9, 0xE) => vx < NUM_KEYS && skip_ok(s, s.keys[vx as int]),
        (0xE, _, 0xA, 1) => vx < NUM_KEYS && skip_ok(s, !s.keys[vx as int]),
        (0xF, _, 0, 7) => true,
        (0xF, _, 0, 0xA) => first_pressed(s.keys) is None ==> s.pc >= SKIP,
        (0xF, _, 1, 5) => true,
        (0xF, _, 1, 8) => true,
        (0xF, _, 1, 0xE) => true,
        (0xF, _, 2, 9) => true,
        (0xF, _, 3, 3) => i + 2 < RAM_SIZE,
        (0xF, _, 5, 5) => i + x < RAM_SIZE,
        (0xF, _, 6, 5) => i + x < RAM_SIZE,
        _ => false,
    }
}

} // verus!
