use vstd::prelude::*;
use vstd::arithmetic::power2::pow2;
use crate::instruction::{Instruction, decode_spec};

verus! {

/// Bytes of memory.
pub const RAM_SIZE: usize = 4096;

/// Where a program is loaded and where execution starts.
pub const PROGRAM_START: usize = 0x200;

/// Width and height of the monochrome display, in pixels.
pub const SCREEN_WIDTH: usize = 64;

pub const SCREEN_HEIGHT: usize = 32;

/// Slots of the return-address stack.
pub const STACK_DEPTH: usize = 16;

/// General purpose registers `V0`..`VF`.
pub const REGISTER_COUNT: usize = 16;

/// The flag register `VF`.
pub const FLAG: usize = 15;

/// The whole state of the interpreter, as mathematical values.
pub struct Machine {
    pub ram: Seq<u8>,
    /// `display[row][column]`; `true` is a lit pixel.
    pub display: Seq<Seq<bool>>,
    pub pc: u16,
    pub i: u16,
    pub stack: Seq<u16>,
    pub sc: u16,
    pub delaytime: u8,
    pub soundtime: u8,
    pub v: Seq<u8>,
}

/// A display with every pixel dark.
pub open spec fn blank_display() -> Seq<Seq<bool>> {
    Seq::new(SCREEN_HEIGHT as nat, |r: int| Seq::new(SCREEN_WIDTH as nat, |c: int| false))
}

/// `mem` with `data` written from address `at` on.
pub open spec fn write_block(mem: Seq<u8>, at: int, data: Seq<u8>) -> Seq<u8> {
    Seq::new(mem.len(), |a: int| if at <= a < at + data.len() { data[a - at] } else { mem[a] })
}

/// Bit `bit` of a sprite byte, counted from the most significant bit, as 0 or 1.
pub open spec fn sprite_bit(b: u8, bit: int) -> u8 {
    (b >> ((7 - bit) as usize)) & 1u8
}

/// The three decimal digits of a byte, most significant first.
pub open spec fn bcd_digits(b: u8) -> Seq<u8> {
    seq![b / 100, (b % 100) / 10, b % 10]
}

/// Whether bit `bit` of a byte, counted from the most significant bit (0) to
/// the least significant (7), is set.
pub open spec fn msb_bit(b: u8, bit: int) -> bool {
    (b as int / pow2((7 - bit) as nat) as int) % 2 == 1
}

/// Whether the sprite that `DXYN` draws from `m` covers pixel `(r, c)` with
/// a set bit among its first `k` pixels (row by row, each row from its most
/// significant bit), placed from the registers `Vx`, `Vy` of `m`.
pub open spec fn sprite_flips(m: Machine, x: int, y: int, k: int, r: int, c: int) -> bool {
    let ro = (r - m.v[y]) % (SCREEN_HEIGHT as int);
    let bo = (c - m.v[x]) % (SCREEN_WIDTH as int);
    &&& bo < 8
    &&& 8 * ro + bo < k
    &&& msb_bit(m.ram[m.i + ro], bo)
}

impl Machine {
    /// Every component has the size of the hardware it stands for.
    pub open spec fn wf(self) -> bool {
        &&& self.ram.len() == RAM_SIZE
        &&& self.display.len() == SCREEN_HEIGHT
        &&& forall|r: int| 0 <= r < SCREEN_HEIGHT ==> (#[trigger] self.display[r]).len() == SCREEN_WIDTH
        &&& self.stack.len() == STACK_DEPTH
        &&& self.v.len() == REGISTER_COUNT
    }

    /// The machine with register `r` set to `val`.
    pub open spec fn with_v(self, r: int, val: u8) -> Machine {
        Machine { v: self.v.update(r, val), ..self }
    }

    /// The machine with the next instruction skipped.
    pub open spec fn skip(self) -> Machine {
        Machine { pc: (self.pc + 2) as u16, ..self }
    }

    /// The big-endian opcode at the program counter.
    pub open spec fn opcode(self) -> u16 {
        (self.ram[self.pc as int] * 256 + self.ram[self.pc + 1]) as u16
    }

    /// The opcode at the program counter can be read.
    pub open spec fn can_fetch(self) -> bool {
        self.pc + 1 < RAM_SIZE
    }

    /// The instruction at the program counter.
    pub open spec fn current(self) -> Option<Instruction> {
        decode_spec(self.opcode())
    }

    /// The machine with one pixel of a sprite drawn on display row `r`: bit
    /// `bit` of sprite row `row`, in the column that `Vx` gives as it is now.
    pub open spec fn draw_pixel(self, x: int, r: int, row: int, bit: int) -> Machine {
        let c = (self.v[x] + bit) % (SCREEN_WIDTH as int);
        let color = sprite_bit(self.ram[self.i + row], bit);
        let lit = self.display[r][c];
        let collided: u8 = if lit { 1 } else { 0 };
        let new_lit = if color != 0 { !lit } else { lit };
        Machine {
            v: self.v.update(FLAG as int, self.v[FLAG as int] | (color & collided)),
            display: self.display.update(r, self.display[r].update(c, new_lit)),
            ..self
        }
    }

    /// The first `b` bits of sprite row `row` drawn on display row `r`, most
    /// significant bit first.
    pub open spec fn draw_row(self, x: int, r: int, row: int, b: nat) -> Machine
        decreases b,
    {
        if b == 0 {
            self
        } else {
            self.draw_row(x, r, row, (b - 1) as nat).draw_pixel(x, r, row, b - 1)
        }
    }

    /// The first `rows` rows of a sprite drawn; each row lands on the display
    /// row that `Vy`, as it is when the row starts, gives.
    pub open spec fn draw_rows(self, x: int, y: int, rows: nat) -> Machine
        decreases rows,
    {
        if rows == 0 {
            self
        } else {
            let p = self.draw_rows(x, y, (rows - 1) as nat);
            p.draw_row(x, (p.v[y] + (rows - 1)) % (SCREEN_HEIGHT as int), rows - 1, 8)
        }
    }

    /// What executing `ins` does once the program counter has moved past it;
    /// `rnd` is the random byte that `CXKK` masks.
    pub open spec fn execute(self, ins: Instruction, rnd: u8) -> Machine {
        let m = self;
        match ins {
            Instruction::Clear => Machine { display: blank_display(), ..m },
            Instruction::Return => Machine { pc: m.stack[m.sc as int], sc: (m.sc - 1) as u16, ..m },
            Instruction::Jump { nnn } => Machine { pc: nnn, ..m },
            Instruction::Call { nnn } => Machine {
                stack: m.stack.update(m.sc as int, (m.pc + 2) as u16),
                sc: (m.sc + 1) as u16,
                ..m
            },
            Instruction::SkipEqImm { x, kk } => if m.v[x as int] == kk { m.skip() } else { m },
            Instruction::SkipNeImm { x, kk } => if m.v[x as int] != kk { m.skip() } else { m },
            Instruction::SkipEqReg { x, y } => if m.v[x as int] == m.v[y as int] { m.skip() } else { m },
            Instruction::LoadImm { x, kk } => m.with_v(x as int, kk),
            Instruction::AddImm { x, kk } => m.with_v(x as int, ((m.v[x as int] + kk) % 256) as u8),
            Instruction::Move { x, y } => m.with_v(x as int, m.v[y as int]),
            Instruction::Or { x, y } => m.with_v(x as int, m.v[x as int] | m.v[y as int]),
            Instruction::And { x, y } => m.with_v(x as int, m.v[x as int] & m.v[y as int]),
            Instruction::Xor { x, y } => m.with_v(x as int, m.v[x as int] ^ m.v[y as int]),
            Instruction::AddReg { x, y } => {
                let sum = m.v[x as int] + m.v[y as int];
                m.with_v(x as int, (sum % 256) as u8).with_v(FLAG as int, if sum > 255 { 1 } else { 0 })
            },
            Instruction::SubReg { x, y } => {
                let m1 = m.with_v(FLAG as int, if m.v[x as int] > m.v[y as int] { 1 } else { 0 });
                m1.with_v(x as int, ((m1.v[x as int] - m1.v[y as int] + 256) % 256) as u8)
            },
            Instruction::ShiftRight { x } => {
                let m1 = m.with_v(FLAG as int, m.v[x as int] % 2);
                m1.with_v(x as int, m1.v[x as int] / 2)
            },
            Instruction::SubNeg { x, y } => {
                let m1 = m.with_v(FLAG as int, if m.v[y as int] > m.v[x as int] { 1 } else { 0 });
                m1.with_v(x as int, ((m1.v[y as int] - m1.v[x as int] + 256) % 256) as u8)
            },
            Instruction::ShiftLeft { x } => {
                let m1 = m.with_v(FLAG as int, m.v[x as int] / 128);
                m1.with_v(x as int, ((m1.v[x as int] * 2) % 256) as u8)
            },
            Instruction::SkipNeReg { x, y } => if m.v[x as int] != m.v[y as int] { m.skip() } else { m },
            Instruction::LoadIndex { nnn } => Machine { i: nnn, ..m },
            Instruction::JumpOffset { nnn } => Machine { pc: (nnn + m.v[0]) as u16, ..m },
            Instruction::Random { x, kk } => m.with_v(x as int, rnd & kk),
            Instruction::Draw { x, y, n } => m.with_v(FLAG as int, 0).draw_rows(
                x as int,
                y as int,
                n as nat,
            ),
            Instruction::SkipNotPressed { .. } => m.skip(),
            Instruction::FontChar { x } => Machine { i: (m.v[x as int] * 5) as u16, ..m },
            Instruction::Bcd { x } => Machine {
                ram: write_block(m.ram, m.i as int, bcd_digits(m.v[x as int])),
                ..m
            },
            Instruction::SetDelay { x } => Machine { delaytime: m.v[x as int], ..m },
            Instruction::StoreRegs { x } => Machine {
                ram: write_block(m.ram, m.i as int, m.v.take(x + 1)),
                ..m
            },
            Instruction::LoadRegs { x } => Machine {
                v: write_block(m.v, 0, m.ram.subrange(m.i as int, m.i + x + 1)),
                ..m
            },
            Instruction::WaitKey { .. } => m,
            Instruction::AddIndex { x } => {
                let ni = m.i + m.v[x as int];
                Machine { i: ni as u16, ..m }.with_v(FLAG as int, if ni > 0x0F00 { 1 } else { 0 })
            },
        }
    }

    /// Executing `ins` stays inside memory, the stack and the ranges of the
    /// integer types; elsewhere the interpreter would panic.
    pub open spec fn can_execute(self, ins: Instruction) -> bool {
        let m = self;
        &&& m.wf()
        &&& ins.wf()
        &&& match ins {
            Instruction::Return => 1 <= m.sc < STACK_DEPTH,
            Instruction::Call { .. } => m.sc < STACK_DEPTH && m.pc + 2 <= u16::MAX,
            Instruction::SkipEqImm { .. } | Instruction::SkipNeImm { .. }
            | Instruction::SkipEqReg { .. } | Instruction::SkipNeReg { .. }
            | Instruction::SkipNotPressed { .. } => m.pc + 2 <= u16::MAX,
            Instruction::Draw { n, .. } => m.i + n <= RAM_SIZE,
            Instruction::FontChar { x } => m.v[x as int] * 5 <= u8::MAX,
            Instruction::Bcd { .. } => m.i + 2 < RAM_SIZE,
            Instruction::StoreRegs { x } | Instruction::LoadRegs { x } => m.i + x < RAM_SIZE,
            Instruction::AddIndex { x } => m.i + m.v[x as int] <= u16::MAX,
            _ => true,
        }
    }

    /// A step can run: the opcode can be read, is known, and its execution is safe.
    pub open spec fn can_step(self) -> bool {
        &&& self.wf()
        &&& self.can_fetch()
        &&& self.current() matches Some(ins)
        &&& self.skip().can_execute(ins)
    }

    /// One fetch/decode/execute cycle; `rnd` is the random byte, used by `CXKK` only.
    pub open spec fn step(self, rnd: u8) -> Machine {
        self.skip().execute(self.current().unwrap(), rnd)
    }
}

} // verus!
