//! A second, smaller CHIP-8 core: a CPU with a draw flag and a key-wait
//! latch, that decodes clear screen, return, jump, call and the two
//! immediate skips.
use vstd::prelude::*;

verus! {

broadcast use vstd::array::group_array_axioms;

/// Width of the display, in pixels.
pub const W: usize = 64;

/// Height of the display, in pixels.
pub const H: usize = 32;

/// Bytes of addressable memory.
pub const MEM_SIZE: usize = 4096;

/// Number of pixels of the display.
pub const GFX_SIZE: usize = W * H;

/// Address at which programs are loaded and execution starts.
pub const PROGRAM_START: usize = 0x200;

/// A CHIP-8 CPU with its memory, display and keypad.
pub struct CPU {
    pub memory: [u8; MEM_SIZE],
    /// Registers `V0` to `VF`.
    pub v: [u8; 16],
    pub i: u16,
    pub pc: u16,
    pub stack: [u16; 16],
    /// Stack pointer: the number of return addresses on the stack.
    pub sp: u8,
    pub delay_timer: u8,
    pub sound_timer: u8,
    /// The display, one byte per pixel, 0 or 1.
    pub gfx: [u8; GFX_SIZE],
    /// The keypad: which keys are held down.
    pub keys: [bool; 16],
    /// Set by the step that cleared or drew the screen.
    pub draw_flag: bool,
    /// While `Some(x)`, the CPU is halted until a key is pressed, which is
    /// stored into `Vx`.
    waiting_for_key: Option<usize>,
}

/// The state of a [`CPU`] as sequences and integers.
#[verifier::ext_equal]
pub struct CpuState {
    pub memory: Seq<u8>,
    pub v: Seq<u8>,
    pub i: u16,
    pub pc: u16,
    pub stack: Seq<u16>,
    pub sp: u8,
    pub delay_timer: u8,
    pub sound_timer: u8,
    pub gfx: Seq<u8>,
    pub keys: Seq<bool>,
    pub draw_flag: bool,
    pub waiting_for_key: Option<usize>,
}

impl View for CPU {
    type V = CpuState;

    closed spec fn view(&self) -> CpuState {
        CpuState {
            memory: self.memory@,
            v: self.v@,
            i: self.i,
            pc: self.pc,
            stack: self.stack@,
            sp: self.sp,
            delay_timer: self.delay_timer,
            sound_timer: self.sound_timer,
            gfx: self.gfx@,
            keys: self.keys@,
            draw_flag: self.draw_flag,
            waiting_for_key: self.waiting_for_key,
        }
    }
}

impl CpuState {
    /// Every component has the size of the hardware it stands for, and a
    /// pending key wait names a register.
    pub open spec fn well_formed(self) -> bool {
        &&& self.memory.len() == MEM_SIZE
        &&& self.v.len() == 16
        &&& self.stack.len() == 16
        &&& self.gfx.len() == GFX_SIZE
        &&& self.keys.len() == 16
        &&& (self.waiting_for_key matches Some(x) ==> x < 16)
    }

    /// A CPU just powered on: all zero, the program counter at
    /// `PROGRAM_START`, no key wait pending.
    pub open spec fn initial() -> CpuState {
        CpuState {
            memory: Seq::new(MEM_SIZE as nat, |k: int| 0u8),
            v: Seq::new(16, |k: int| 0u8),
            i: 0,
            pc: PROGRAM_START as u16,
            stack: Seq::new(16, |k: int| 0u16),
            sp: 0,
            delay_timer: 0,
            sound_timer: 0,
            gfx: Seq::new(GFX_SIZE as nat, |k: int| 0u8),
            keys: Seq::new(16, |k: int| false),
            draw_flag: false,
            waiting_for_key: None,
        }
    }

    /// The timers after one 60 Hz tick: each counts down, and stops at zero.
    pub open spec fn timers_ticked(self) -> CpuState {
        CpuState {
            delay_timer: if self.delay_timer > 0 { (self.delay_timer - 1) as u8 } else { 0 },
            sound_timer: if self.sound_timer > 0 { (self.sound_timer - 1) as u8 } else { 0 },
            ..self
        }
    }

    /// Key `key` changed to `pressed`: keys outside the keypad are ignored;
    /// while a key wait is pending the key's index also goes to its register.
    pub open spec fn key_set(self, key: int, pressed: bool) -> CpuState {
        if key < 16 {
            let s = CpuState { keys: self.keys.update(key, pressed), ..self };
            match self.waiting_for_key {
                Some(x) => CpuState { v: s.v.update(x as int, key as u8), ..s },
                None => s,
            }
        } else {
            self
        }
    }

    /// The opcode at the program counter: two bytes, high byte first.
    pub open spec fn opcode(self) -> u16 {
        (self.memory[self.pc as int] * 256 + self.memory[self.pc + 1]) as u16
    }

    /// One step is defined: the opcode lies in memory, a return finds an
    /// address on the stack and a call finds room on it.
    pub open spec fn step_ok(self) -> bool {
        self.waiting_for_key is None ==> {
            let op = self.opcode();
            &&& self.pc + 1 < MEM_SIZE
            &&& op == 0x00EE ==> 1 <= self.sp <= 16
            &&& op / 4096 == 2 ==> self.sp < 16
        }
    }

    /// The CPU after one step. A pending key wait halts it; otherwise the
    /// opcode is fetched, the program counter moves past it (wrapping), the
    /// draw flag is cleared, and the opcode takes effect.
    pub open spec fn step_spec(self) -> CpuState {
        if self.waiting_for_key is Some {
            self
        } else {
            let op = self.opcode();
            let pc1 = ((self.pc + 2) % 0x10000) as u16;
            let nnn = op % 4096;
            let kk = (op % 256) as u8;
            let x = ((op / 256) % 16) as int;
            let s = CpuState { pc: pc1, draw_flag: false, ..self };
            match op / 4096 {
                0 => if op == 0x00E0 {
                    CpuState {
                        gfx: Seq::new(GFX_SIZE as nat, |k: int| 0u8),
                        draw_flag: true,
                        ..s
                    }
                } else if op == 0x00EE {
                    CpuState { sp: (self.sp - 1) as u8, pc: self.stack[self.sp - 1], ..s }
                } else {
                    s
                },
                1 => CpuState { pc: nnn, ..s },
                2 => CpuState {
                    stack: self.stack.update(self.sp as int, pc1),
                    sp: (self.sp + 1) as u8,
                    pc: nnn,
                    ..s
                },
                3 => if self.v[x] == kk {
                    CpuState { pc: ((pc1 + 2) % 0x10000) as u16, ..s }
                } else {
                    s
                },
                4 => if self.v[x] != kk {
                    CpuState { pc: ((pc1 + 2) % 0x10000) as u16, ..s }
                } else {
                    s
                },
                _ => s,
            }
        }
    }
}

impl CPU {
    /// A CPU just powered on.
    pub fn new() -> (cpu: Self)
        ensures
            cpu@ == CpuState::initial(),
            cpu@.well_formed(),
    {
        let c = Self {
            memory: [0; MEM_SIZE],
            v: [0; 16],
            i: 0,
            pc: 0x200,
            stack: [0; 16],
            sp: 0,
            delay_timer: 0,
            sound_timer: 0,
            gfx: [0; GFX_SIZE],
            keys: [false; 16],
            draw_flag: false,
            waiting_for_key: None,
        };
        assert(c@ =~= CpuState::initial());
        c
    }

    /// Copies `rom` into memory from `PROGRAM_START` on and sets the program
    /// counter to `PROGRAM_START`.
    pub fn load_rom(&mut self, rom: &[u8])
        requires
            old(self)@.well_formed(),
            PROGRAM_START + rom@.len() <= MEM_SIZE,
        ensures
            final(self)@ == (CpuState {
                memory: Seq::new(
                    MEM_SIZE as nat,
                    |k: int|
                        if PROGRAM_START <= k < PROGRAM_START + rom@.len() {
                            rom@[k - PROGRAM_START]
                        } else {
                            old(self)@.memory[k]
                        },
                ),
                pc: PROGRAM_START as u16,
                ..old(self)@
            }),
            final(self)@.well_formed(),
    {
        let start = PROGRAM_START;
        let end = start + rom.len();
        let mut k: usize = start;
        while k < end
            invariant
                start == PROGRAM_START,
                end == start + rom@.len(),
                end <= MEM_SIZE,
                start <= k <= end,
                self@ == (CpuState {
                    memory: Seq::new(
                        MEM_SIZE as nat,
                        |j: int| if start <= j < k { rom@[j - start] } else { old(self)@.memory[j] },
                    ),
                    ..old(self)@
                }),
            decreases end - k,
        {
            self.memory[k] = rom[k - start];
            k = k + 1;
            assert(self@.memory =~= Seq::new(
                MEM_SIZE as nat,
                |j: int| if start <= j < k { rom@[j - start] } else { old(self)@.memory[j] },
            ));
        }
        self.pc = start as u16;
        assert(self@ =~= (CpuState {
            memory: Seq::new(
                MEM_SIZE as nat,
                |j: int| if start <= j < end { rom@[j - start] } else { old(self)@.memory[j] },
            ),
            pc: PROGRAM_START as u16,
            ..old(self)@
        }));
    }

    /// Sets the state of key `key`; keys outside the keypad are ignored.
    /// While a key wait is pending, the key's index also goes to the waiting
    /// register.
    pub fn set_key(&mut self, key: usize, pressed: bool)
        requires
            old(self)@.well_formed(),
        ensures
            final(self)@ == old(self)@.key_set(key as int, pressed),
            final(self)@.well_formed(),
    {
        if key < 16 {
            self.keys[key] = pressed;
            if let Some(x) = self.waiting_for_key {
                self.v[x] = key as u8;
            }
        }
        assert(self@ =~= old(self)@.key_set(key as int, pressed));
    }

    /// Counts the delay and sound timers down by one, each stopping at zero.
    pub fn tick_timers_60hz(&mut self)
        requires
            old(self)@.well_formed(),
        ensures
            final(self)@ == old(self)@.timers_ticked(),
            final(self)@.well_formed(),
    {
        if self.delay_timer > 0 {
            self.delay_timer = self.delay_timer - 1;
        }
        if self.sound_timer > 0 {
            self.sound_timer = self.sound_timer - 1;
        }
    }

    /// Runs one fetch-decode-execute step, unless a key wait is pending.
    pub fn step(&mut self)
        requires
            old(self)@.well_formed(),
            old(self)@.step_ok(),
        ensures
            final(self)@ == old(self)@.step_spec(),
            final(self)@.well_formed(),
    {
        if self.waiting_for_key.is_some() {
            return;
        }
        let pc = self.pc as usize;
        let opcode = u16_from_be_bytes([self.memory[pc], self.memory[pc + 1]]);

        self.pc = self.pc.wrapping_add(2);

        let nnn = opcode & 0x0FFF;
        let kk = (opcode & 0x00FF) as u8;
        let x = ((opcode & 0x0F00) >> 8) as usize;
        proof {
            lemma_opcode_fields(opcode);
        }
        let ghost s0 = old(self)@;
        let ghost pc1 = self.pc;

        self.draw_flag = false;

        match opcode & 0xF000 {
            0x0000 => match opcode {
                0x00E0 => {
                    self.gfx = [0; GFX_SIZE];
                    self.draw_flag = true;
                },
                0x00EE => {
                    self.sp = self.sp.wrapping_sub(1);
                    self.pc = self.stack[self.sp as usize];
                },
                _ => {
                    // 0NNN (call a machine code routine at NNN) only ran on
                    // the original hardware; interpreters ignore it.
                },
            },
            0x1000 => {
                self.pc = nnn;
            },
            0x2000 => {
                self.stack[self.sp as usize] = self.pc;
                self.sp = self.sp.wrapping_add(1);
                self.pc = nnn;
            },
            0x3000 => {
                if self.v[x] == kk {
                    self.pc = self.pc.wrapping_add(2);
                }
            },
            0x4000 => {
                if self.v[x] != kk {
                    self.pc = self.pc.wrapping_add(2);
                }
            },
            _ => {},
        }
        assert(self@ =~= s0.step_spec());
    }
}

/// A call (`2NNN`) whose target holds a return (`00EE`) brings the CPU back,
/// two steps later, to the instruction after the call with the stack pointer
/// restored.
pub proof fn lemma_cpu_call_then_return(s: CpuState)
    requires
        s.well_formed(),
        s.waiting_for_key is None,
        s.step_ok(),
        s.opcode() / 4096 == 2,
        s.opcode() % 4096 + 1 < MEM_SIZE,
        s.memory[(s.opcode() % 4096) as int] == 0x00,
        s.memory[s.opcode() % 4096 + 1] == 0xEE,
    ensures
        s.step_spec().step_ok(),
        s.step_spec().step_spec().pc == (s.pc + 2) % 0x10000,
        s.step_spec().step_spec().sp == s.sp,
{
    let s1 = s.step_spec();
    assert(s1.pc == s.opcode() % 4096);
    assert(s1.opcode() == 0x00EE);
    assert(s1.sp == s.sp + 1);
    assert(s1.stack[s1.sp - 1] == (s.pc + 2) % 0x10000);
}

/// The fields of an opcode, as `step` extracts them with masks and shifts.
proof fn lemma_opcode_fields(op: u16)
    by (bit_vector)
    ensures
        op & 0x0FFF == op % 4096,
        op & 0x00FF == op % 256,
        (op & 0x0F00) >> 8 == (op / 256) % 16,
        op & 0xF000 == (op / 4096) * 4096,
        (op / 256) % 16 < 16,
{
}

/// Calls `u16::from_be_bytes`, which reads two bytes as an integer with the
/// first byte as the high byte.
#[verifier::external_body]
fn u16_from_be_bytes(bytes: [u8; 2]) -> (r: u16)
    ensures
        r == bytes@[0] * 256 + bytes@[1],
{
    u16::from_be_bytes(bytes)
}

/// A step while a key wait is pending changes nothing.
pub proof fn law_cpu_step_waiting(s: CpuState)
    requires
        s.waiting_for_key is Some,
    ensures
        s.step_spec() == s,
{
}

/// One step with no key wait pending: the opcode is read high byte first
/// from `pc` and `pc + 1`; memory, registers, `I`, timers and keys never
/// change; the draw flag is set exactly by `00E0`, which also darkens every
/// pixel; `1NNN` and `2NNN` jump to `NNN`, `2NNN` pushing the address after
/// it; `00EE` jumps to the top of the stack and pops it; `3XKK` (`4XKK`)
/// skips one more instruction exactly when `VX` equals (differs from) `KK`;
/// every other opcode only moves past itself. Addresses wrap at 65536.
pub proof fn law_cpu_step(s: CpuState)
    requires
        s.well_formed(),
        s.waiting_for_key is None,
        s.step_ok(),
    ensures
        ({
            let t = s.step_spec();
            let op = s.opcode();
            let next = (s.pc + 2) % 65536;
            let x = (op as int / 256) % 16;
            let kk = op as int % 256;
            &&& op as int / 256 == s.memory[s.pc as int]
            &&& op as int % 256 == s.memory[s.pc + 1]
            &&& t == CpuState { pc: t.pc, sp: t.sp, stack: t.stack, gfx: t.gfx, draw_flag: t.draw_flag, ..s }
            &&& t.draw_flag == (op == 0x00E0)
            &&& op == 0x00E0 ==> t.gfx.len() == s.gfx.len() && forall|k: int|
                0 <= k < t.gfx.len() ==> #[trigger] t.gfx[k] == 0
            &&& op != 0x00E0 ==> t.gfx == s.gfx
            &&& op as int / 4096 == 1 ==> t.pc == op as int % 4096 && t.sp == s.sp && t.stack == s.stack
            &&& op as int / 4096 == 2 ==> {
                &&& t.pc == op as int % 4096
                &&& t.sp == s.sp + 1
                &&& t.stack[s.sp as int] == next
                &&& forall|k: int| 0 <= k < 16 && k != s.sp ==> #[trigger] t.stack[k] == s.stack[k]
            }
            &&& op == 0x00EE ==> t.pc == s.stack[s.sp - 1] && t.sp + 1 == s.sp && t.stack == s.stack
            &&& op as int / 4096 == 3 ==> t.sp == s.sp && t.stack == s.stack
                && (t.pc == next || t.pc == (next + 2) % 65536)
                && ((t.pc == (next + 2) % 65536) == (s.v[x] == kk))
            &&& op as int / 4096 == 4 ==> t.sp == s.sp && t.stack == s.stack
                && (t.pc == next || t.pc == (next + 2) % 65536)
                && ((t.pc == (next + 2) % 65536) == (s.v[x] != kk))
            &&& (op as int / 4096 >= 5 || (op as int / 4096 == 0 && op != 0x00E0 && op != 0x00EE))
                ==> t.pc == next && t.sp == s.sp && t.stack == s.stack
        }),
{
}

/// Setting a key changes that key, and only that key, when it is on the
/// keypad; a key outside the keypad changes nothing; with no key wait
/// pending nothing else changes.
pub proof fn law_cpu_set_key(s: CpuState, key: int, pressed: bool)
    requires
        s.well_formed(),
        key >= 0,
    ensures
        ({
            let t = s.key_set(key, pressed);
            &&& key >= 16 ==> t == s
            &&& key < 16 ==> t.keys[key] == pressed && t.keys.len() == 16 && forall|k: int|
                0 <= k < 16 && k != key ==> #[trigger] t.keys[k] == s.keys[k]
            &&& (key < 16 && s.waiting_for_key is None) ==> t == CpuState { keys: t.keys, ..s }
            &&& (key < 16 && s.waiting_for_key is Some) ==> t.v[s.waiting_for_key->0 as int] == key
        }),
{
}

/// One timer tick: each running timer drops by exactly one, a timer at zero
/// stays at zero, and nothing else changes.
pub proof fn law_cpu_timers(s: CpuState)
    ensures
        ({
            let t = s.timers_ticked();
            &&& s.delay_timer > 0 ==> t.delay_timer + 1 == s.delay_timer
            &&& s.delay_timer == 0 ==> t.delay_timer == 0
            &&& s.sound_timer > 0 ==> t.sound_timer + 1 == s.sound_timer
            &&& s.sound_timer == 0 ==> t.sound_timer == 0
            &&& t == CpuState { delay_timer: t.delay_timer, sound_timer: t.sound_timer, ..s }
        }),
{
}

/// The state after power-on: program counter at `0x200`, everything else
/// zero, released or empty.
pub proof fn law_cpu_initial()
    ensures
        ({
            let s = CpuState::initial();
            &&& s.well_formed()
            &&& s.pc == 0x200 && s.i == 0 && s.sp == 0 && !s.draw_flag
            &&& s.delay_timer == 0 && s.sound_timer == 0 && s.waiting_for_key is None
            &&& forall|k: int| 0 <= k < MEM_SIZE ==> #[trigger] s.memory[k] == 0
            &&& forall|k: int| 0 <= k < GFX_SIZE ==> #[trigger] s.gfx[k] == 0
            &&& forall|k: int| 0 <= k < 16 ==> #[trigger] s.v[k] == 0 && s.stack[k] == 0 && !s.keys[k]
        }),
{
}

} // verus!
