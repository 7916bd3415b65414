//! A third CHIP-8 core, organised around one handler per instruction that
//! tells how the program counter moves on.
use vstd::prelude::*;

verus! {

broadcast use vstd::array::group_array_axioms;

/// Size of one instruction, in bytes.
pub const OPCODE_SIZE: usize = 2;

/// Width of the display, in pixels.
pub const CHIP8_WIDTH: usize = 64;

/// Height of the display, in pixels.
pub const CHIP8_HEIGHT: usize = 32;

/// Bytes of addressable memory.
pub const CHIP8_RAM: usize = 4096;

/// How an instruction moves the program counter on.
enum ProgramCounterChange {
    /// To the next instruction.
    Inc,
    /// To the given address.
    Jump(usize),
}

/// A CHIP-8 CPU with its memory and display.
pub struct Cpu {
    vram: [[u8; CHIP8_WIDTH]; CHIP8_HEIGHT],
    vram_changed: bool,
    ram: [u8; CHIP8_RAM],
    i: usize,
    v: [u8; 16],
    stack: [usize; 16],
    pc: usize,
    sp: usize,
}

/// The state of a [`Cpu`] as sequences and integers; `vram` row by row.
#[verifier::ext_equal]
pub struct CpuView {
    pub vram: Seq<Seq<u8>>,
    pub vram_changed: bool,
    pub ram: Seq<u8>,
    pub i: usize,
    pub v: Seq<u8>,
    pub stack: Seq<usize>,
    pub pc: usize,
    pub sp: usize,
}

/// A blank display: every row of every pixel zero.
pub open spec fn blank_vram() -> Seq<Seq<u8>> {
    Seq::new(CHIP8_HEIGHT as nat, |r: int| Seq::new(CHIP8_WIDTH as nat, |c: int| 0u8))
}

/// The four nibbles of an opcode, high nibble first.
pub open spec fn nibbles(opcode: u16) -> (u8, u8, u8, u8) {
    (
        (opcode / 4096) as u8,
        ((opcode / 256) % 16) as u8,
        ((opcode / 16) % 16) as u8,
        (opcode % 16) as u8,
    )
}

impl View for Cpu {
    type V = CpuView;

    closed spec fn view(&self) -> CpuView {
        CpuView {
            vram: self.vram@.map_values(|row: [u8; CHIP8_WIDTH]| row@),
            vram_changed: self.vram_changed,
            ram: self.ram@,
            i: self.i,
            v: self.v@,
            stack: self.stack@,
            pc: self.pc,
            sp: self.sp,
        }
    }
}

impl CpuView {
    /// A CPU just powered on: all zero, the program counter at `0x200`.
    pub open spec fn initial() -> CpuView {
        CpuView {
            vram: blank_vram(),
            vram_changed: false,
            ram: Seq::new(CHIP8_RAM as nat, |k: int| 0u8),
            i: 0,
            v: Seq::new(16, |k: int| 0u8),
            stack: Seq::new(16, |k: int| 0usize),
            pc: 0x200,
            sp: 0,
        }
    }
}

impl Cpu {
    /// A CPU just powered on.
    pub fn new() -> (cpu: Self)
        ensures
            cpu@ == CpuView::initial(),
    {
        let cpu = Cpu {
            pc: 0x200,
            vram: [[0; CHIP8_WIDTH]; CHIP8_HEIGHT],
            vram_changed: false,
            ram: [0; CHIP8_RAM],
            i: 0,
            stack: [0; 16],
            v: [0; 16],
            sp: 0,
        };
        proof {
            lemma_blank(cpu.vram);
        }
        assert(cpu@ =~= CpuView::initial());
        cpu
    }

    /// Splits an opcode into its four nibbles, high nibble first.
    pub fn parse_opcode(&self, opcode: u16) -> (parts: (u8, u8, u8, u8))
        ensures
            parts == nibbles(opcode),
    {
        let parts = (
            ((opcode & 0xF000) >> 12) as u8,
            ((opcode & 0x0F00) >> 8) as u8,
            ((opcode & 0x00F0) >> 4) as u8,
            (opcode & 0x000F) as u8,
        );
        proof {
            lemma_nibble_masks(opcode);
        }
        parts
    }

    /// Executes one instruction.
    ///
    /// The opcode decoded is always `00E0` (clear the display), whatever
    /// `opcode` is: the display is cleared, marked changed, and the program
    /// counter moves on to the next instruction.
    pub fn execute_instruction(&mut self, opcode: u16)
        requires
            old(self)@.pc + OPCODE_SIZE <= usize::MAX,
        ensures
            final(self)@ == (CpuView {
                vram: blank_vram(),
                vram_changed: true,
                pc: (old(self)@.pc + OPCODE_SIZE) as usize,
                ..old(self)@
            }),
    {
        let opcode: u16 = 0x00E0;
        let (n1, n2, n3, n4) = self.parse_opcode(opcode);

        let nnn = (opcode & 0x0FFF) as usize;

        let pc_change: ProgramCounterChange = match (n1, n2, n3, n4) {
            (0x0, 0x0, 0xE, 0x0) => self.ox_00e0(),
            (0x0, 0x0, 0xE, 0xE) => self.ox_00ee(),
            (0x1, _, _, _) => self.ox_1nnn(nnn),
            (0x2, _, _, _) => self.ox_2nnn(nnn),
            _ => ProgramCounterChange::Inc,
        };

        match pc_change {
            ProgramCounterChange::Inc => self.pc = self.pc + OPCODE_SIZE,
            ProgramCounterChange::Jump(addr) => self.pc = addr,
        };
    }

    /// `00E0`: clears the display and marks it changed.
    fn ox_00e0(&mut self) -> (change: ProgramCounterChange)
        ensures
            change is Inc,
            final(self)@ == (CpuView { vram: blank_vram(), vram_changed: true, ..old(self)@ }),
    {
        self.vram = [[0; CHIP8_WIDTH]; CHIP8_HEIGHT];
        self.vram_changed = true;
        proof {
            lemma_blank(self.vram);
        }
        assert(self@ =~= (CpuView { vram: blank_vram(), vram_changed: true, ..old(self)@ }));
        ProgramCounterChange::Inc
    }

    /// `00EE`: returns to the address on top of the stack, whose top is the
    /// slot at `sp`.
    fn ox_00ee(&mut self) -> (change: ProgramCounterChange)
        requires
            1 <= old(self).sp < 16,
        ensures
            change == ProgramCounterChange::Jump(old(self)@.stack[old(self)@.sp as int]),
            final(self)@ == (CpuView { sp: (old(self)@.sp - 1) as usize, ..old(self)@ }),
    {
        let addr = self.stack[self.sp];
        self.sp = self.sp - 1;
        ProgramCounterChange::Jump(addr)
    }

    /// `1NNN`: jumps to `nnn`.
    fn ox_1nnn(&mut self, nnn: usize) -> (change: ProgramCounterChange)
        ensures
            change == ProgramCounterChange::Jump(nnn),
            final(self)@ == old(self)@,
    {
        ProgramCounterChange::Jump(nnn)
    }

    /// `2NNN`: moves the stack top up one slot, saves the program counter
    /// there, and jumps to `nnn`.
    fn ox_2nnn(&mut self, nnn: usize) -> (change: ProgramCounterChange)
        requires
            old(self).sp + 1 < 16,
        ensures
            change == ProgramCounterChange::Jump(nnn),
            final(self)@ == (CpuView {
                sp: (old(self)@.sp + 1) as usize,
                stack: old(self)@.stack.update(old(self)@.sp + 1, old(self)@.pc),
                ..old(self)@
            }),
    {
        self.sp = self.sp + 1;
        self.stack[self.sp] = self.pc;
        ProgramCounterChange::Jump(nnn)
    }
}

/// A display filled with zero rows is blank.
proof fn lemma_blank(vram: [[u8; CHIP8_WIDTH]; CHIP8_HEIGHT])
    requires
        forall|r: int, c: int|
            #![trigger vram@[r]@[c]]
            0 <= r < CHIP8_HEIGHT && 0 <= c < CHIP8_WIDTH ==> vram@[r]@[c] == 0,
    ensures
        vram@.map_values(|row: [u8; CHIP8_WIDTH]| row@) =~= blank_vram(),
{
    assert forall|r: int| 0 <= r < CHIP8_HEIGHT implies vram@.map_values(
        |row: [u8; CHIP8_WIDTH]| row@,
    )[r] =~= blank_vram()[r] by {
        assert(vram@[r]@.len() == CHIP8_WIDTH);
    }
}

/// The nibbles of an opcode, as masks and shifts extract them.
proof fn lemma_nibble_masks(op: u16)
    by (bit_vector)
    ensures
        (op & 0xF000) >> 12 == op / 4096,
        (op & 0x0F00) >> 8 == (op / 256) % 16,
        (op & 0x00F0) >> 4 == (op / 16) % 16,
        op & 0x000F == op % 16,
{
}

/// The four nibbles put back together, high nibble first, give the opcode,
/// and each is below 16.
pub proof fn law_nibbles_recompose(opcode: u16)
    ensures
        ({
            let (a, b, c, d) = nibbles(opcode);
            &&& a < 16 && b < 16 && c < 16 && d < 16
            &&& 4096 * a + 256 * b + 16 * c + d == opcode
        }),
{
    assert(opcode / 4096 < 16 && (opcode / 256) % 16 < 16 && (opcode / 16) % 16 < 16
        && opcode % 16 < 16 && 4096 * (opcode / 4096) + 256 * ((opcode / 256) % 16) + 16 * ((
    opcode / 16) % 16) + opcode % 16 == opcode) by (bit_vector);
}

/// A blank display has 32 rows of 64 pixels, every one of them zero.
pub proof fn law_blank_vram()
    ensures
        blank_vram().len() == CHIP8_HEIGHT,
        forall|r: int| 0 <= r < CHIP8_HEIGHT ==> (#[trigger] blank_vram()[r]).len() == CHIP8_WIDTH,
        forall|r: int, c: int|
            0 <= r < CHIP8_HEIGHT && 0 <= c < CHIP8_WIDTH ==> #[trigger] blank_vram()[r][c] == 0,
{
}

} // verus!
