//! The CHIP-8 interpreter: machine state held in fixed arrays, and the
//! fetch-execute cycle over it.
use vstd::prelude::*;
use crate::machine::{
    FONTSET_SIZE, Machine, NUM_KEYS, NUM_REGS, RAM_SIZE, SCREEN_HEIGHT, SCREEN_SIZE, SCREEN_WIDTH,
    SKIP, STACK_SIZE, START_ADDR, VF, collision_upto, draw_spec, draw_target, font_spec,
    sprite_covers, execute_ok, execute_spec, first_pressed, is_first_pressed, load_regs_spec,
    store_regs_spec, wait_key_spec, op_kind, op_n, op_nn, op_nnn, op_x, op_y,
};
use crate::rng::random_byte;
use crate::sprite::{covered_before, lemma_order_unique, lemma_target, sprite_order};

verus! {

broadcast use vstd::array::group_array_axioms;

/// A CHIP-8 machine. Its parts are open to a front end, which may inspect
/// and set them between cycles; `view` reads them as a [`Machine`].
pub struct Emu {
    /// Address of the next instruction.
    pub pc: u16,
    /// Memory: the font from address 0, programs from `START_ADDR`.
    pub ram: [u8; RAM_SIZE],
    /// The display, row by row, one byte per pixel: 0 dark, 1 lit.
    pub screen: [u8; SCREEN_SIZE],
    /// Registers `V0` to `VF`; `VF` doubles as the flag register.
    pub v_reg: [u8; NUM_REGS],
    /// The address register `I`.
    pub i_reg: u16,
    /// Number of return addresses on the stack.
    pub sp: u16,
    /// Return addresses, the most recent at `sp - 1`.
    pub stack: [u16; STACK_SIZE],
    /// The keypad: which keys are held down.
    pub keys: [bool; NUM_KEYS],
    /// Delay timer, counting down at 60 Hz.
    pub dt: u8,
    /// Sound timer, counting down at 60 Hz.
    pub st: u8,
}

impl View for Emu {
    type V = Machine;

    open spec fn view(&self) -> Machine {
        Machine {
            pc: self.pc,
            ram: self.ram@,
            screen: self.screen@,
            v_reg: self.v_reg@,
            i_reg: self.i_reg,
            sp: self.sp,
            stack: self.stack@,
            keys: self.keys@,
            dt: self.dt,
            st: self.st,
        }
    }
}

/// `a` and `b` agree on everything but the screen.
spec fn same_but_screen(a: Machine, b: Machine) -> bool {
    a == Machine { screen: a.screen, ..b }
}

/// The fields of an opcode, as the interpreter extracts them with masks and
/// shifts.
proof fn lemma_decode(op: u16)
    by (bit_vector)
    ensures
        (op & 0xF000) >> 12 == op_kind(op),
        (op & 0x0F00) >> 8 == op_x(op),
        (op & 0x00F0) >> 4 == op_y(op),
        op & 0x000F == op_n(op),
        op & 0x0FFF == op_nnn(op),
        op & 0x00FF == op % 256,
        op_x(op) < 16,
        op_y(op) < 16,
        op_n(op) < 16,
{
}

/// At most one key is the first one held down.
proof fn lemma_first_pressed_unique(keys: Seq<bool>, a: int, b: int)
    requires
        is_first_pressed(keys, a),
        is_first_pressed(keys, b),
    ensures
        a == b,
{
    if a < b {
        assert(!keys[a]);
    } else if b < a {
        assert(!keys[b]);
    }
}

/// The built-in font, glyphs `0` to `F`.
fn font_sprites() -> (font: [u8; FONTSET_SIZE])
    ensures
        font@ == font_spec(),
{
    let font: [u8; FONTSET_SIZE] = [
        0xF0, 0x90, 0x90, 0x90, 0xF0, // 0
        0x20, 0x60, 0x20, 0x20, 0x70, // 1
        0xF0, 0x10, 0xF0, 0x80, 0xF0, // 2
        0xF0, 0x10, 0xF0, 0x10, 0xF0, // 3
        0x90, 0x90, 0xF0, 0x10, 0x10, // 4
        0xF0, 0x80, 0xF0, 0x10, 0xF0, // 5
        0xF0, 0x80, 0xF0, 0x90, 0xF0, // 6
        0xF0, 0x10, 0x20, 0x40, 0x40, // 7
        0xF0, 0x90, 0xF0, 0x90, 0xF0, // 8
        0xF0, 0x90, 0xF0, 0x10, 0xF0, // 9
        0xF0, 0x90, 0xF0, 0x90, 0x90, // A
        0xE0, 0x90, 0xE0, 0x90, 0xE0, // B
        0xF0, 0x80, 0x80, 0x80, 0xF0, // C
        0xE0, 0x90, 0x90, 0x90, 0xE0, // D
        0xF0, 0x80, 0xF0, 0x80, 0xF0, // E
        0xF0, 0x80, 0xF0, 0x80, 0x80, // F
    ];
    assert(font@ =~= font_spec());
    font
}

impl Emu {
    /// A machine just powered on: the font in memory from address 0, every
    /// other byte, register, timer, key and pixel zero, and the program
    /// counter at `START_ADDR`.
    pub fn new() -> (emu: Self)
        ensures
            emu@ == Machine::initial(),
    {
        let mut emu = Emu {
            pc: START_ADDR,
            ram: [0; RAM_SIZE],
            screen: [0; SCREEN_SIZE],
            v_reg: [0; NUM_REGS],
            i_reg: 0,
            sp: 0,
            stack: [0; STACK_SIZE],
            keys: [false; NUM_KEYS],
            dt: 0,
            st: 0,
        };
        let font = font_sprites();
        let mut k: usize = 0;
        while k < FONTSET_SIZE
            invariant
                k <= FONTSET_SIZE,
                font@ == font_spec(),
                emu@ == (Machine {
                    ram: Seq::new(
                        RAM_SIZE as nat,
                        |j: int| if j < k { font_spec()[j] } else { 0u8 },
                    ),
                    ..Machine::initial()
                }),
            decreases FONTSET_SIZE - k,
        {
            emu.ram[k] = font[k];
            k = k + 1;
            assert(emu.ram@ =~= Seq::new(
                RAM_SIZE as nat,
                |j: int| if j < k { font_spec()[j] } else { 0u8 },
            ));
        }
        assert(emu@ =~= Machine::initial());
        emu
    }

    /// Puts the machine back in the state that `new` gives.
    pub fn reset(&mut self)
        ensures
            final(self)@ == Machine::initial(),
    {
        *self = Self::new();
    }

    /// Runs one cycle: fetches the instruction at the program counter, moves
    /// past it and executes it. `CXNN` draws its byte at random; every other
    /// instruction is determined by the state.
    pub fn tick(&mut self)
        requires
            old(self)@.tick_ok(),
        ensures
            exists|rnd: u8| final(self)@ == old(self)@.tick_spec(rnd),
    {
        let op = self.fetch();
        let rnd = if op & 0xF000 == 0xC000 {
            random_byte()
        } else {
            0
        };
        self.execute(op, rnd);
        assert(self@ == old(self)@.tick_spec(rnd));
    }

    /// Counts the delay and sound timers down by one, each stopping at zero.
    pub fn tick_timers(&mut self)
        ensures
            final(self)@ == old(self)@.timers_ticked(),
    {
        if self.dt > 0 {
            self.dt = self.dt - 1;
        }
        if self.st > 0 {
            self.st = self.st - 1;
        }
    }

    /// The display, row by row, one byte per pixel.
    pub fn get_display(&self) -> (display: &[u8])
        ensures
            display@ == self.screen@,
            display@.len() == SCREEN_WIDTH * SCREEN_HEIGHT,
    {
        &self.screen
    }

    /// Holds key `idx` down (`pressed`) or releases it.
    pub fn keypress(&mut self, idx: usize, pressed: bool)
        requires
            idx < NUM_KEYS,
        ensures
            final(self)@ == old(self)@.with_key(idx as int, pressed),
    {
        self.keys[idx] = pressed;
    }

    /// Copies a program into memory from `START_ADDR` on.
    pub fn load(&mut self, data: &[u8])
        requires
            START_ADDR + data@.len() <= RAM_SIZE,
        ensures
            final(self)@ == old(self)@.loaded(data@),
    {
        let start = START_ADDR as usize;
        let end = start + data.len();
        let mut k: usize = start;
        while k < end
            invariant
                start == START_ADDR,
                end == start + data@.len(),
                end <= RAM_SIZE,
                start <= k <= end,
                self@ == (Machine {
                    ram: Seq::new(
                        RAM_SIZE as nat,
                        |j: int|
                            if start <= j < k {
                                data@[j - start]
                            } else {
                                old(self)@.ram[j]
                            },
                    ),
                    ..old(self)@
                }),
            decreases end - k,
        {
            self.ram[k] = data[k - start];
            k = k + 1;
            assert(self.ram@ =~= Seq::new(
                RAM_SIZE as nat,
                |j: int|
                    if start <= j < k {
                        data@[j - start]
                    } else {
                        old(self)@.ram[j]
                    },
            ));
        }
        assert(self@ =~= old(self)@.loaded(data@));
    }

    /// Pushes a return address on the call stack.
    fn push(&mut self, val: u16)
        requires
            old(self).sp < STACK_SIZE,
        ensures
            final(self)@ == (Machine {
                stack: old(self)@.stack.update(old(self).sp as int, val),
                sp: (old(self).sp + 1) as u16,
                ..old(self)@
            }),
    {
        self.stack[self.sp as usize] = val;
        self.sp = self.sp + 1;
    }

    /// Pops the most recent return address off the call stack.
    fn pop(&mut self) -> (val: u16)
        requires
            1 <= old(self).sp <= STACK_SIZE,
        ensures
            val == old(self)@.stack[old(self).sp - 1],
            final(self)@ == (Machine { sp: (old(self).sp - 1) as u16, ..old(self)@ }),
    {
        self.sp = self.sp - 1;
        self.stack[self.sp as usize]
    }

    /// Reads the opcode at the program counter and moves past it.
    fn fetch(&mut self) -> (op: u16)
        requires
            old(self)@.fetch_ok(),
        ensures
            op == old(self)@.fetch_op(),
            final(self)@ == old(self)@.with_pc(old(self).pc + SKIP),
    {
        let high = self.ram[self.pc as usize] as u16;
        let low = self.ram[(self.pc + 1) as usize] as u16;
        let opcode = (high << 8) | low;
        assert(opcode == high * 256 + low) by (bit_vector)
            requires
                high < 256,
                low < 256,
                opcode == (high << 8) | low,
        ;
        self.pc = self.pc + SKIP;
        opcode
    }

    /// Executes opcode `op`, the program counter already past it. `rnd` is
    /// the byte that `CXNN` masks with `NN`; no other instruction reads it.
    #[verifier::spinoff_prover]
    #[verifier::rlimit(40)]
    pub fn execute(&mut self, op: u16, rnd: u8)
        requires
            execute_ok(old(self)@, op),
        ensures
            final(self)@ == execute_spec(old(self)@, op, rnd),
    {
        let nibbles = ((op & 0xF000) >> 12, (op & 0x0F00) >> 8, (op & 0x00F0) >> 4, op & 0x000F);
        let nnn = op & 0x0FFF;
        let nn = (op & 0x00FF) as u8;
        let n = (op & 0x000F) as u8;
        let x = nibbles.1 as usize;
        let y = nibbles.2 as usize;
        proof {
            lemma_decode(op);
        }
        let ghost s0 = self@;
        match nibbles {
            (0, 0, 0, 0) => {},
            (0, 0, 0xE, 0) => {
                self.screen = [0; SCREEN_SIZE];
                assert(self@ =~= execute_spec(s0, op, rnd));
            },
            (0, 0, 0xE, 0xE) => {
                self.pc = self.pop();
            },
            (1, _, _, _) => {
                self.pc = nnn;
            },
            (2, _, _, _) => {
                let ret = self.pc;
                self.push(ret);
                self.pc = nnn;
            },
            (3, _, _, _) => {
                if self.v_reg[x] == nn {
                    self.pc = self.pc + SKIP;
                }
            },
            (4, _, _, _) => {
                if self.v_reg[x] != nn {
                    self.pc = self.pc + SKIP;
                }
            },
            (5, _, _, 0) => {
                if self.v_reg[x] == self.v_reg[y] {
                    self.pc = self.pc + SKIP;
                }
            },
            (6, _, _, _) => {
                self.v_reg[x] = nn;
            },
            (7, _, _, _) => {
                self.v_reg[x] = self.v_reg[x].wrapping_add(nn);
            },
            (8, _, _, 0) => {
                self.v_reg[x] = self.v_reg[y];
            },
            (8, _, _, 1) => {
                self.v_reg[x] = self.v_reg[x] | self.v_reg[y];
            },
            (8, _, _, 2) => {
                self.v_reg[x] = self.v_reg[x] & self.v_reg[y];
            },
            (8, _, _, 3) => {
                self.v_reg[x] = self.v_reg[x] ^ self.v_reg[y];
            },
            (8, _, _, 4) => {
                let (vx, carry) = self.v_reg[x].overflowing_add(self.v_reg[y]);
                let vf = if carry {
                    1
                } else {
                    0
                };
                self.v_reg[x] = vx;
                self.v_reg[VF] = vf;
            },
            (8, _, _, 5) => {
                let (vx, borrow) = self.v_reg[x].overflowing_sub(self.v_reg[y]);
                let vf = if borrow {
                    0
                } else {
                    1
                };
                self.v_reg[x] = vx;
                self.v_reg[VF] = vf;
            },
            (8, _, _, 6) => {
                let old_vx = self.v_reg[x];
                let lsb = old_vx & 1;
                let vx = old_vx >> 1;
                assert(lsb == old_vx % 2 && vx == old_vx / 2) by (bit_vector)
                    requires
                        lsb == old_vx & 1,
                        vx == old_vx >> 1,
                ;
                self.v_reg[x] = vx;
                self.v_reg[VF] = lsb;
            },
            (8, _, _, 7) => {
                let (vx, borrow) = self.v_reg[y].overflowing_sub(self.v_reg[x]);
                let vf = if borrow {
                    0
                } else {
                    1
                };
                self.v_reg[x] = vx;
                self.v_reg[VF] = vf;
            },
            (8, _, _, 0xE) => {
                let old_vx = self.v_reg[x];
                let msb = (old_vx >> 7) & 1;
                let vx = old_vx << 1;
                assert(msb == old_vx / 128 && vx == (old_vx * 2) % 256) by (bit_vector)
                    requires
                        msb == (old_vx >> 7) & 1,
                        vx == old_vx << 1,
                ;
                self.v_reg[x] = vx;
                self.v_reg[VF] = msb;
            },
            (9, _, _, 0) => {
                if self.v_reg[x] != self.v_reg[y] {
                    self.pc = self.pc + SKIP;
                }
            },
            (0xA, _, _, _) => {
                self.i_reg = nnn;
            },
            (0xB, _, _, _) => {
                self.pc = (self.v_reg[0] as u16) + nnn;
            },
            (0xC, _, _, _) => {
                self.v_reg[x] = rnd & nn;
            },
            (0xD, _, _, _) => {
                self.draw_sprite(x, y, n);
            },
            (0xE, _, 9, 0xE) => {
                let key = self.keys[self.v_reg[x] as usize];
                if key {
                    self.pc = self.pc + SKIP;
                }
            },
            (0xE, _, 0xA, 1) => {
                let key = self.keys[self.v_reg[x] as usize];
                if !key {
                    self.pc = self.pc + SKIP;
                }
            },
            (0xF, _, 0, 7) => {
                self.v_reg[x] = self.dt;
            },
            (0xF, _, 0, 0xA) => {
                self.wait_for_key(x);
            },
            (0xF, _, 1, 5) => {
                self.dt = self.v_reg[x];
            },
            (0xF, _, 1, 8) => {
                self.st = self.v_reg[x];
            },
            (0xF, _, 1, 0xE) => {
                let vx = self.v_reg[x] as u16;
                self.i_reg = self.i_reg.wrapping_add(vx);
            },
            (0xF, _, 2, 9) => {
                // each font glyph takes five bytes
                self.i_reg = (self.v_reg[x] as u16) * 5;
            },
            (0xF, _, 3, 3) => {
                let vx = self.v_reg[x];
                let hundreds = vx / 100;
                let tens = (vx / 10) % 10;
                let ones = vx % 10;
                self.ram[self.i_reg as usize] = hundreds;
                self.ram[(self.i_reg + 1) as usize] = tens;
                self.ram[(self.i_reg + 2) as usize] = ones;
            },
            (0xF, _, 5, 5) => {
                self.store_regs(x);
            },
            (0xF, _, 6, 5) => {
                self.load_regs(x);
            },
            (_, _, _, _) => {},
        }
        assert(self@ =~= execute_spec(s0, op, rnd));
    }

    /// `FX0A`: the index of the first key held down goes to `VX`; with no key
    /// held, the program counter moves back onto this instruction.
    fn wait_for_key(&mut self, x: usize)
        requires
            x < NUM_REGS,
            first_pressed(old(self)@.keys) is None ==> old(self).pc >= SKIP,
        ensures
            final(self)@ == wait_key_spec(old(self)@, x as int),
    {
        let ghost s0 = self@;
        let mut pressed = false;
        let mut i: usize = 0;
        while i < NUM_KEYS
            invariant_except_break
                x < NUM_REGS,
                i <= NUM_KEYS,
                !pressed,
                self@ == s0,
                forall|j: int| 0 <= j < i ==> !#[trigger] s0.keys[j],
            ensures
                pressed ==> is_first_pressed(s0.keys, i as int) && self@ == s0.with_reg(
                    x as int,
                    i as u8,
                ),
                !pressed ==> self@ == s0 && forall|j: int| 0 <= j < NUM_KEYS ==> !#[trigger] s0.keys[j],
            decreases NUM_KEYS - i,
        {
            if self.keys[i] {
                self.v_reg[x] = i as u8;
                pressed = true;
                break;
            }
            i = i + 1;
        }
        if !pressed {
            self.pc = self.pc - SKIP;
        }
        proof {
            if pressed {
                assert(exists|k: int| 0 <= k < s0.keys.len() && #[trigger] s0.keys[k]) by {
                    assert(s0.keys[i as int]);
                }
                let k = choose|k: int| is_first_pressed(s0.keys, k);
                lemma_first_pressed_unique(s0.keys, k, i as int);
            }
        }
    }

    /// `FX55`: stores registers `V0` to `VX` in memory from `I` on.
    fn store_regs(&mut self, x: usize)
        requires
            x < NUM_REGS,
            old(self).i_reg + x < RAM_SIZE,
        ensures
            final(self)@ == store_regs_spec(old(self)@, x as int),
    {
        let ghost s0 = self@;
        let ghost i = s0.i_reg as int;
        let mut idx: usize = 0;
        while idx <= x
            invariant
                x < NUM_REGS,
                i + x < RAM_SIZE,
                i == self.i_reg,
                idx <= x + 1,
                self@ == (Machine {
                    ram: Seq::new(
                        RAM_SIZE as nat,
                        |k: int| if i <= k < i + idx { s0.v_reg[k - i] } else { s0.ram[k] },
                    ),
                    ..s0
                }),
            decreases x + 1 - idx,
        {
            self.ram[(self.i_reg as usize) + idx] = self.v_reg[idx];
            idx = idx + 1;
            assert(self.ram@ =~= Seq::new(
                RAM_SIZE as nat,
                |k: int| if i <= k < i + idx { s0.v_reg[k - i] } else { s0.ram[k] },
            ));
        }
        assert(self@ =~= store_regs_spec(s0, x as int));
    }

    /// `FX65`: loads registers `V0` to `VX` from memory from `I` on.
    fn load_regs(&mut self, x: usize)
        requires
            x < NUM_REGS,
            old(self).i_reg + x < RAM_SIZE,
        ensures
            final(self)@ == load_regs_spec(old(self)@, x as int),
    {
        let ghost s0 = self@;
        let ghost i = s0.i_reg as int;
        let mut idx: usize = 0;
        while idx <= x
            invariant
                x < NUM_REGS,
                i + x < RAM_SIZE,
                i == self.i_reg,
                idx <= x + 1,
                self@ == (Machine {
                    v_reg: Seq::new(
                        NUM_REGS as nat,
                        |k: int| if k < idx { s0.ram[i + k] } else { s0.v_reg[k] },
                    ),
                    ..s0
                }),
            decreases x + 1 - idx,
        {
            self.v_reg[idx] = self.ram[(self.i_reg as usize) + idx];
            idx = idx + 1;
            assert(self.v_reg@ =~= Seq::new(
                NUM_REGS as nat,
                |k: int| if k < idx { s0.ram[i + k] } else { s0.v_reg[k] },
            ));
        }
        assert(self@ =~= load_regs_spec(s0, x as int));
    }

    /// Whether the next cycle is defined: the instruction at the program
    /// counter lies in memory, is one of the machine's, and executing it
    /// stays within the stack, the memory and the keypad.
    pub fn can_tick(&self) -> (ok: bool)
        ensures
            ok == self@.tick_ok(),
    {
        if self.pc as usize + 1 >= RAM_SIZE {
            return false;
        }
        let high = self.ram[self.pc as usize] as u16;
        let low = self.ram[(self.pc + 1) as usize] as u16;
        let op = high * 256 + low;
        self.execute_ok_at(op, self.pc + SKIP)
    }

    /// Whether executing `op` is defined in the current state.
    pub fn can_execute(&self, op: u16) -> (ok: bool)
        ensures
            ok == execute_ok(self@, op),
    {
        assert(self@.with_pc(self.pc as int) =~= self@);
        self.execute_ok_at(op, self.pc)
    }

    /// Whether executing `op` is defined in the current state with the
    /// program counter at `pc`.
    fn execute_ok_at(&self, op: u16, pc: u16) -> (ok: bool)
        ensures
            ok == execute_ok(self@.with_pc(pc as int), op),
    {
        let ghost s = self@.with_pc(pc as int);
        let nibbles = ((op & 0xF000) >> 12, (op & 0x0F00) >> 8, (op & 0x00F0) >> 4, op & 0x000F);
        let nn = (op & 0x00FF) as u8;
        let n = (op & 0x000F) as u16;
        let x = nibbles.1 as usize;
        let y = nibbles.2 as usize;
        proof {
            lemma_decode(op);
        }
        let vx = self.v_reg[x];
        let vy = self.v_reg[y];
        let i = self.i_reg as usize;
        let can_skip = pc <= u16::MAX - SKIP;
        match nibbles {
            (0, 0, 0, 0) => true,
            (0, 0, 0xE, 0) => true,
            (0, 0, 0xE, 0xE) => 1 <= self.sp && self.sp as usize <= STACK_SIZE,
            (1, _, _, _) => true,
            (2, _, _, _) => (self.sp as usize) < STACK_SIZE,
            (3, _, _, _) => vx != nn || can_skip,
            (4, _, _, _) => vx == nn || can_skip,
            (5, _, _, 0) => vx != vy || can_skip,
            (6, _, _, _) => true,
            (7, _, _, _) => true,
            (8, _, _, _) => n <= 7 || n == 0xE,
            (9, _, _, 0) => vx == vy || can_skip,
            (0xA, _, _, _) => true,
            (0xB, _, _, _) => true,
            (0xC, _, _, _) => true,
            (0xD, _, _, _) => n == 0 || i + (n as usize) <= RAM_SIZE,
            (0xE, _, 9, 0xE) => (vx as usize) < NUM_KEYS && (!self.keys[vx as usize] || can_skip),
            (0xE, _, 0xA, 1) => (vx as usize) < NUM_KEYS && (self.keys[vx as usize] || can_skip),
            (0xF, _, 0, 7) => true,
            (0xF, _, 0, 0xA) => self.any_key_pressed() || pc >= SKIP,
            (0xF, _, 1, 5) => true,
            (0xF, _, 1, 8) => true,
            (0xF, _, 1, 0xE) => true,
            (0xF, _, 2, 9) => true,
            (0xF, _, 3, 3) => i + 2 < RAM_SIZE,
            (0xF, _, 5, 5) => i + x < RAM_SIZE,
            (0xF, _, 6, 5) => i + x < RAM_SIZE,
            (_, _, _, _) => false,
        }
    }

    /// Whether some key is held down.
    fn any_key_pressed(&self) -> (any: bool)
        ensures
            any == (first_pressed(self.keys@) is Some),
    {
        let mut k: usize = 0;
        while k < NUM_KEYS
            invariant
                k <= NUM_KEYS,
                forall|j: int| 0 <= j < k ==> !#[trigger] self.keys@[j],
            decreases NUM_KEYS - k,
        {
            if self.keys[k] {
                assert(self.keys@[k as int]);
                return true;
            }
            k = k + 1;
        }
        false
    }

    /// `DXYN`: draws the `n`-row sprite stored at `I` at `(VX, VY)`.
    fn draw_sprite(&mut self, x: usize, y: usize, n: u8)
        requires
            x < NUM_REGS,
            y < NUM_REGS,
            n < 16,
            n == 0 || old(self).i_reg + n <= RAM_SIZE,
        ensures
            final(self)@ == draw_spec(old(self)@, x as int, y as int, n as int),
    {
        let ghost s0 = self@;
        let x_coord = self.v_reg[x] as u16;
        let y_coord = self.v_reg[y] as u16;
        let ghost vx = s0.v_reg[x as int];
        let ghost vy = s0.v_reg[y as int];
        let mut flipped: u8 = 0;
        let mut y_line: u16 = 0;
        while y_line < n as u16
            invariant
                s0 == old(self)@,
                x < NUM_REGS,
                y < NUM_REGS,
                n < 16,
                n == 0 || s0.i_reg + n <= RAM_SIZE,
                vx == s0.v_reg[x as int],
                vy == s0.v_reg[y as int],
                x_coord == vx,
                y_coord == vy,
                y_line <= n,
                same_but_screen(self@, s0),
                forall|idx: int|
                    0 <= idx < SCREEN_SIZE ==> #[trigger] self.screen@[idx] == if covered_before(
                        s0,
                        vx,
                        vy,
                        n as int,
                        idx,
                        8 * y_line,
                    ) {
                        s0.screen[idx] ^ 1u8
                    } else {
                        s0.screen[idx]
                    },
                flipped == collision_upto(s0, vx, vy, 8 * y_line),
            decreases n - y_line,
        {
            let addr = self.i_reg + y_line;
            let pixels = self.ram[addr as usize];
            let mut x_line: u16 = 0;
            while x_line < 8
                invariant
                    s0 == old(self)@,
                    x < NUM_REGS,
                    y < NUM_REGS,
                    n < 16,
                    s0.i_reg + n <= RAM_SIZE,
                    vx == s0.v_reg[x as int],
                    vy == s0.v_reg[y as int],
                    x_coord == vx,
                    y_coord == vy,
                    y_line < n,
                    x_line <= 8,
                    pixels == s0.ram[s0.i_reg + y_line],
                    same_but_screen(self@, s0),
                    forall|idx: int|
                        0 <= idx < SCREEN_SIZE ==> #[trigger] self.screen@[idx] == if covered_before(
                            s0,
                            vx,
                            vy,
                            n as int,
                            idx,
                            8 * y_line + x_line,
                        ) {
                            s0.screen[idx] ^ 1u8
                        } else {
                            s0.screen[idx]
                        },
                    flipped == collision_upto(s0, vx, vy, 8 * y_line + x_line),
                decreases 8 - x_line,
            {
                let ghost k0 = 8 * y_line + x_line;
                let ghost t0 = draw_target(vx, vy, y_line as int, x_line as int);
                proof {
                    lemma_target(vx, vy, y_line as int, x_line as int);
                    assert((k0 + 1 - 1) / 8 == y_line && (k0 + 1 - 1) % 8 == x_line);
                }
                if (pixels & (0b1000_0000u8 >> x_line)) != 0 {
                    let px = (x_coord + x_line) as usize % SCREEN_WIDTH;
                    let py = (y_coord + y_line) as usize % SCREEN_HEIGHT;
                    let idx = px + SCREEN_WIDTH * py;
                    assert(idx == t0);
                    assert(!covered_before(s0, vx, vy, n as int, t0, k0));
                    flipped = flipped | self.screen[idx];
                    self.screen[idx] = self.screen[idx] ^ 1;
                    assert forall|j: int| 0 <= j < SCREEN_SIZE implies #[trigger] self.screen@[j]
                        == if covered_before(s0, vx, vy, n as int, j, k0 + 1) {
                        s0.screen[j] ^ 1u8
                    } else {
                        s0.screen[j]
                    } by {
                        if j != t0 {
                            if sprite_covers(s0, vx, vy, n as int, j) && sprite_order(vx, vy, j)
                                == k0 {
                                lemma_order_unique(vx, vy, j, y_line as int, x_line as int);
                            }
                        }
                    }
                } else {
                    assert forall|j: int| 0 <= j < SCREEN_SIZE implies #[trigger] self.screen@[j]
                        == if covered_before(s0, vx, vy, n as int, j, k0 + 1) {
                        s0.screen[j] ^ 1u8
                    } else {
                        s0.screen[j]
                    } by {
                        if sprite_covers(s0, vx, vy, n as int, j) && sprite_order(vx, vy, j) == k0 {
                            lemma_order_unique(vx, vy, j, y_line as int, x_line as int);
                        }
                    }
                }
                x_line = x_line + 1;
            }
            y_line = y_line + 1;
        }
        self.v_reg[VF] = flipped;
        proof {
            let s1 = self@;
            let exp = draw_spec(s0, x as int, y as int, n as int);
            assert forall|idx: int| 0 <= idx < SCREEN_SIZE implies s1.screen[idx]
                == exp.screen[idx] by {
                if sprite_covers(s0, vx, vy, n as int, idx) {
                    assert(sprite_order(vx, vy, idx) < 8 * n);
                }
            }
            assert(s1.screen =~= exp.screen);
            assert(s1.v_reg =~= exp.v_reg);
            assert(s1 =~= exp);
        }
    }
}

} // verus!
