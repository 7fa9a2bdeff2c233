use vstd::prelude::*;
use crate::font::{FONT_MEM, FONT_START};
use crate::instruction::{Instruction, decode, lemma_decode_wf};
use crate::machine::{
    Machine, bcd_digits, blank_display, write_block, RAM_SIZE, PROGRAM_START, SCREEN_WIDTH, SCREEN_HEIGHT,
    STACK_DEPTH, REGISTER_COUNT, FLAG,
};

verus! {

/// The interpreter: memory, display, registers, stack and timers.
#[allow(non_camel_case_types)]
pub struct cpu {
    pub ram: [u8; 4096],
    pub display: [[bool; 64]; 32],
    pub pc: u16,
    pub i: u16,
    pub stack: [u16; 16],
    pub sc: u16,
    pub delaytime: u8,
    pub soundtime: u8,
    pub v: [u8; 16],
}

impl View for cpu {
    type V = Machine;

    open spec fn view(&self) -> Machine {
        Machine {
            ram: self.ram@,
            display: self.display@.map_values(|row: [bool; 64]| row@),
            pc: self.pc,
            i: self.i,
            stack: self.stack@,
            sc: self.sc,
            delaytime: self.delaytime,
            soundtime: self.soundtime,
            v: self.v@,
        }
    }
}

/// The state right after power-on: memory, display, registers and stack
/// cleared, and the program counter at the program start.
pub open spec fn power_on() -> Machine {
    Machine {
        ram: Seq::new(RAM_SIZE as nat, |a: int| 0u8),
        display: blank_display(),
        pc: PROGRAM_START as u16,
        i: 0,
        stack: Seq::new(STACK_DEPTH as nat, |s: int| 0u16),
        sc: 0,
        delaytime: 0,
        soundtime: 0,
        v: Seq::new(REGISTER_COUNT as nat, |r: int| 0u8),
    }
}

/// `rand::random::<u8>()`: a byte drawn from the thread-local generator.
/// Nothing is promised of its value.
#[verifier::external_body]
fn random_byte() -> (b: u8) {
    rand::random::<u8>()
}

/// Two bytes read big-endian.
proof fn lemma_join_bytes(hi: u8, lo: u8)
    ensures
        ((hi as u16) << 8) | (lo as u16) == (hi * 256 + lo) as u16,
{
    assert(((hi as u16) << 8) | (lo as u16) == (hi * 256 + lo) as u16) by (bit_vector);
}

impl cpu {
    /// The view of any interpreter is well formed.
    pub proof fn lemma_view_wf(&self)
        ensures
            self@.wf(),
    {
        assert forall|r: int| 0 <= r < SCREEN_HEIGHT implies (#[trigger] self@.display[r]).len()
            == SCREEN_WIDTH by {
            assert(self@.display[r] == self.display@[r]@);
        }
    }

    /// A powered-on interpreter.
    pub fn new() -> (c: cpu)
        ensures
            c@ == power_on(),
    {
        let c = cpu {
            ram: [0; 4096],
            display: [[false; 64]; 32],
            pc: 0x200,
            i: 0,
            stack: [0; 16],
            sc: 0,
            delaytime: 0,
            soundtime: 0,
            v: [0; 16],
        };
        assert(c@.ram =~= power_on().ram);
        assert(c@.stack =~= power_on().stack);
        assert(c@.v =~= power_on().v);
        assert(c@.display =~= blank_display()) by {
            assert forall|r: int| 0 <= r < SCREEN_HEIGHT implies #[trigger] c@.display[r]
                =~= blank_display()[r] by {
                assert(c@.display[r] == c.display@[r]@);
            }
        }
        c
    }

    fn set_reg(&mut self, r: usize, val: u8)
        requires
            r < REGISTER_COUNT,
        ensures
            final(self)@ == old(self)@.with_v(r as int, val),
    {
        self.v[r] = val;
        assert(self@.v =~= old(self)@.v.update(r as int, val));
    }

    fn write_ram(&mut self, a: usize, val: u8)
        requires
            a < RAM_SIZE,
        ensures
            final(self)@ == (Machine { ram: old(self)@.ram.update(a as int, val), ..old(self)@ }),
    {
        self.ram[a] = val;
        assert(self@.ram =~= old(self)@.ram.update(a as int, val));
    }

    fn set_pixel(&mut self, r: usize, c: usize, val: bool)
        requires
            r < SCREEN_HEIGHT,
            c < SCREEN_WIDTH,
        ensures
            final(self)@ == (Machine {
                display: old(self)@.display.update(r as int, old(self)@.display[r as int].update(c as int, val)),
                ..old(self)@
            }),
    {
        let mut row = self.display[r];
        row[c] = val;
        self.display[r] = row;
        assert(self@.display[r as int] =~= old(self)@.display[r as int].update(c as int, val));
        assert(self@.display =~= old(self)@.display.update(
            r as int,
            old(self)@.display[r as int].update(c as int, val),
        ));
    }

    /// Copies `code` into memory from the program start on.
    pub fn inject_code(&mut self, code: &[u8])
        requires
            PROGRAM_START + code@.len() <= RAM_SIZE,
        ensures
            final(self)@ == (Machine {
                ram: write_block(old(self)@.ram, PROGRAM_START as int, code@),
                ..old(self)@
            }),
    {
        let ghost start = self@;
        proof {
            self.lemma_view_wf();
        }
        let mut pindex: usize = 0;
        assert(write_block(start.ram, PROGRAM_START as int, code@.take(0)) =~= start.ram);
        while pindex < code.len()
            invariant
                pindex <= code@.len(),
                PROGRAM_START + code@.len() <= RAM_SIZE,
                start.ram.len() == RAM_SIZE,
                self@ == (Machine {
                    ram: write_block(start.ram, PROGRAM_START as int, code@.take(pindex as int)),
                    ..start
                }),
            decreases code@.len() - pindex,
        {
            self.write_ram(PROGRAM_START + pindex, code[pindex]);
            assert(self@.ram =~= write_block(
                start.ram,
                PROGRAM_START as int,
                code@.take(pindex + 1),
            ));
            pindex = pindex + 1;
        }
        assert(code@.take(code@.len() as int) =~= code@);
    }

    /// Copies the font sprites into memory from `FONT_START` on.
    pub fn inject_font(&mut self, pfont: [u8; 80])
        ensures
            final(self)@ == (Machine {
                ram: write_block(old(self)@.ram, FONT_START as int, pfont@),
                ..old(self)@
            }),
    {
        let ghost start = self@;
        proof {
            self.lemma_view_wf();
        }
        let mut findex: usize = 0;
        assert(write_block(start.ram, FONT_START as int, pfont@.take(0)) =~= start.ram);
        while findex < 80
            invariant
                findex <= 80,
                start.ram.len() == RAM_SIZE,
                pfont@.len() == 80,
                self@ == (Machine {
                    ram: write_block(start.ram, FONT_START as int, pfont@.take(findex as int)),
                    ..start
                }),
            decreases 80 - findex,
        {
            self.write_ram(FONT_START + findex, pfont[findex]);
            assert(self@.ram =~= write_block(
                start.ram,
                FONT_START as int,
                pfont@.take(findex + 1),
            ));
            findex = findex + 1;
        }
        assert(pfont@.take(80) =~= pfont@);
    }

    /// Loads the font and then the program.
    pub fn init(&mut self, code: &[u8])
        requires
            PROGRAM_START + code@.len() <= RAM_SIZE,
        ensures
            final(self)@ == (Machine {
                ram: write_block(
                    write_block(old(self)@.ram, FONT_START as int, FONT_MEM@),
                    PROGRAM_START as int,
                    code@,
                ),
                ..old(self)@
            }),
    {
        self.inject_font(FONT_MEM);
        self.inject_code(code);
    }

    /// The opcode at the program counter, high byte first.
    pub fn fetch(&self) -> (op: u16)
        requires
            self@.can_fetch(),
        ensures
            op == self@.opcode(),
    {
        let hi = self.ram[self.pc as usize];
        let lo = self.ram[self.pc as usize + 1];
        proof {
            lemma_join_bytes(hi, lo);
        }
        ((hi as u16) << 8) | (lo as u16)
    }

    fn clear_display(&mut self)
        ensures
            final(self)@ == (Machine { display: blank_display(), ..old(self)@ }),
    {
        self.display = [[false; 64]; 32];
        assert(self@.display =~= blank_display()) by {
            assert forall|r: int| 0 <= r < SCREEN_HEIGHT implies #[trigger] self@.display[r]
                =~= blank_display()[r] by {
                assert(self@.display[r] == self.display@[r]@);
            }
        }
    }

    /// `FX55`: `V0..=Vx` stored at `I..=I + x`.
    fn store_regs(&mut self, x: usize)
        requires
            x < REGISTER_COUNT,
            old(self).i + x < RAM_SIZE,
        ensures
            final(self)@ == (Machine {
                ram: write_block(old(self)@.ram, old(self)@.i as int, old(self)@.v.take(x + 1)),
                ..old(self)@
            }),
    {
        let ghost start = self@;
        proof {
            self.lemma_view_wf();
        }
        let mut k: usize = 0;
        assert(write_block(start.ram, start.i as int, start.v.take(0)) =~= start.ram);
        while k < x + 1
            invariant
                k <= x + 1,
                x < REGISTER_COUNT,
                start.i + x < RAM_SIZE,
                start.wf(),
                self@ == (Machine {
                    ram: write_block(start.ram, start.i as int, start.v.take(k as int)),
                    ..start
                }),
            decreases x + 1 - k,
        {
            let a: usize = (self.i + k as u16) as usize;
            self.write_ram(a, self.v[k]);
            assert(self@.ram =~= write_block(start.ram, start.i as int, start.v.take(k + 1)));
            k = k + 1;
        }
    }

    /// `FX65`: `V0..=Vx` loaded from `I..=I + x`.
    fn load_regs(&mut self, x: usize)
        requires
            x < REGISTER_COUNT,
            old(self).i + x < RAM_SIZE,
        ensures
            final(self)@ == (Machine {
                v: write_block(
                    old(self)@.v,
                    0,
                    old(self)@.ram.subrange(old(self)@.i as int, old(self)@.i + x + 1),
                ),
                ..old(self)@
            }),
    {
        let ghost start = self@;
        proof {
            self.lemma_view_wf();
        }
        let mut k: usize = 0;
        assert(write_block(start.v, 0, start.ram.subrange(start.i as int, start.i as int)) =~= start.v);
        while k < x + 1
            invariant
                k <= x + 1,
                x < REGISTER_COUNT,
                start.i + x < RAM_SIZE,
                start.wf(),
                self@ == (Machine {
                    v: write_block(start.v, 0, start.ram.subrange(start.i as int, start.i + k)),
                    ..start
                }),
            decreases x + 1 - k,
        {
            let b = self.ram[self.i as usize + k];
            self.set_reg(k, b);
            assert(self@.v =~= write_block(
                start.v,
                0,
                start.ram.subrange(start.i as int, start.i + k + 1),
            ));
            k = k + 1;
        }
    }

    /// `DXYN`: an `n`-row sprite from `I` drawn at `(Vx, Vy)`, each pixel
    /// XORed onto the display, with `VF` set when a lit pixel is turned off.
    fn draw(&mut self, x: u8, y: u8, n: u8)
        requires
            x < REGISTER_COUNT,
            y < REGISTER_COUNT,
            n < 16,
            old(self).i + n <= RAM_SIZE,
        ensures
            final(self)@ == old(self)@.with_v(FLAG as int, 0).draw_rows(x as int, y as int, n as nat),
    {
        self.set_reg(FLAG, 0);
        let ghost start = self@;
        proof {
            self.lemma_view_wf();
        }
        let xi = x as usize;
        let yi = y as usize;
        let mut byte: usize = 0;
        while byte < n as usize
            invariant
                byte <= n,
                xi == x,
                yi == y,
                xi < REGISTER_COUNT,
                yi < REGISTER_COUNT,
                start.wf(),
                start.i + n <= RAM_SIZE,
                self@ == start.draw_rows(x as int, y as int, byte as nat),
                self.i == start.i,
                self.ram@ == start.ram,
            decreases n - byte,
        {
            let ghost row_start = self@;
            let row = (self.v[yi] as usize + byte) % 32;
            let mut bit: usize = 0;
            while bit < 8
                invariant
                    bit <= 8,
                    byte < n,
                    xi == x,
                    yi == y,
                    xi < REGISTER_COUNT,
                    yi < REGISTER_COUNT,
                    row < SCREEN_HEIGHT,
                    row == (row_start.v[y as int] + byte) % (SCREEN_HEIGHT as int),
                    row_start == start.draw_rows(x as int, y as int, byte as nat),
                    start.wf(),
                    start.i + n <= RAM_SIZE,
                    self@ == row_start.draw_row(x as int, row as int, byte as int, bit as nat),
                    self.i == start.i,
                    self.ram@ == start.ram,
                decreases 8 - bit,
            {
                let ghost before = self@;
                let col = (self.v[xi] as usize + bit) % 64;
                let color: u8 = (self.ram[self.i as usize + byte] >> (7 - bit)) & 1;
                proof {
                    self.lemma_view_wf();
                }
                let lit = self.display[row][col];
                assert(lit == before.display[row as int][col as int]);
                let collided: u8 = if lit { 1 } else { 0 };
                let flag = self.v[FLAG] | (color & collided);
                self.set_reg(FLAG, flag);
                let flip = match color {
                    0 => false,
                    _ => true,
                };
                self.set_pixel(row, col, lit ^ flip);
                assert(self@ == before.draw_pixel(x as int, row as int, byte as int, bit as int));
                bit = bit + 1;
            }
            byte = byte + 1;
        }
    }

    /// Control flow, skips and the index load.
    fn execute_flow(&mut self, ins: Instruction, rnd: u8)
        requires
            old(self)@.can_execute(ins),
            ins is Clear || ins is Return || ins is Jump || ins is Call || ins is SkipEqImm || ins is SkipNeImm || ins is SkipEqReg || ins is SkipNeReg || ins is LoadIndex || ins is JumpOffset || ins is SkipNotPressed || ins is WaitKey,
        ensures
            final(self)@ == old(self)@.execute(ins, rnd),
    {
        match ins {
            Instruction::Clear => {
                self.clear_display();
            },
            Instruction::Return => {
                self.pc = self.stack[self.sc as usize];
                self.sc = self.sc - 1;
            },
            Instruction::Jump { nnn } => {
                self.pc = nnn;
            },
            Instruction::Call { .. } => {
                let ghost st = self.stack@;
                self.stack[self.sc as usize] = self.pc + 2;
                assert(self.stack@ =~= st.update(old(self).sc as int, (old(self).pc + 2) as u16));
                self.sc = self.sc + 1;
            },
            Instruction::SkipEqImm { x, kk } => {
                if self.v[x as usize] == kk {
                    self.pc = self.pc + 2;
                }
            },
            Instruction::SkipNeImm { x, kk } => {
                if self.v[x as usize] != kk {
                    self.pc = self.pc + 2;
                }
            },
            Instruction::SkipEqReg { x, y } => {
                if self.v[x as usize] == self.v[y as usize] {
                    self.pc = self.pc + 2;
                }
            },
            Instruction::SkipNeReg { x, y } => {
                if self.v[x as usize] != self.v[y as usize] {
                    self.pc = self.pc + 2;
                }
            },
            Instruction::LoadIndex { nnn } => {
                self.i = nnn;
            },
            Instruction::JumpOffset { nnn } => {
                self.pc = (nnn as usize + self.v[0] as usize) as u16;
            },
            Instruction::SkipNotPressed { .. } => {
                self.pc = self.pc + 2;
            },
            Instruction::WaitKey { .. } => {},
            _ => {},
        }
    }

    /// Register loads and bitwise operations.
    fn execute_alu(&mut self, ins: Instruction, rnd: u8)
        requires
            old(self)@.can_execute(ins),
            ins is LoadImm || ins is AddImm || ins is Move || ins is Or || ins is And || ins is Xor || ins is Random,
        ensures
            final(self)@ == old(self)@.execute(ins, rnd),
    {
        match ins {
            Instruction::LoadImm { x, kk } => {
                self.set_reg(x as usize, kk);
            },
            Instruction::AddImm { x, kk } => {
                let r = self.v[x as usize].wrapping_add(kk);
                self.set_reg(x as usize, r);
            },
            Instruction::Move { x, y } => {
                let r = self.v[y as usize];
                self.set_reg(x as usize, r);
            },
            Instruction::Or { x, y } => {
                let r = self.v[x as usize] | self.v[y as usize];
                self.set_reg(x as usize, r);
            },
            Instruction::And { x, y } => {
                let r = self.v[x as usize] & self.v[y as usize];
                self.set_reg(x as usize, r);
            },
            Instruction::Xor { x, y } => {
                let r = self.v[x as usize] ^ self.v[y as usize];
                self.set_reg(x as usize, r);
            },
            Instruction::Random { x, kk } => {
                self.set_reg(x as usize, rnd & kk);
            },
            _ => {},
        }
    }

    /// Arithmetic that reports a carry, borrow or shifted-out bit in `VF`.
    fn execute_flagged(&mut self, ins: Instruction, rnd: u8)
        requires
            old(self)@.can_execute(ins),
            ins is AddReg || ins is SubReg || ins is ShiftRight || ins is SubNeg || ins is ShiftLeft,
        ensures
            final(self)@ == old(self)@.execute(ins, rnd),
    {
        match ins {
            Instruction::AddReg { x, y } => {
                let vx = self.v[x as usize] as u16;
                let vy = self.v[y as usize] as u16;
                let result = vx + vy;
                assert(result as u8 == (result % 256) as u8) by (bit_vector);
                self.set_reg(x as usize, result as u8);
                let carry: u8 = if result > 0xFF { 1 } else { 0 };
                self.set_reg(FLAG, carry);
            },
            Instruction::SubReg { x, y } => {
                let f: u8 = if self.v[x as usize] > self.v[y as usize] { 1 } else { 0 };
                self.set_reg(FLAG, f);
                let r = self.v[x as usize].wrapping_sub(self.v[y as usize]);
                self.set_reg(x as usize, r);
            },
            Instruction::ShiftRight { x } => {
                let vx = self.v[x as usize];
                assert(vx & 1 == vx % 2) by (bit_vector);
                self.set_reg(FLAG, vx & 1);
                let vx2 = self.v[x as usize];
                assert(vx2 >> 1 == vx2 / 2) by (bit_vector);
                self.set_reg(x as usize, vx2 >> 1);
            },
            Instruction::SubNeg { x, y } => {
                let f: u8 = if self.v[y as usize] > self.v[x as usize] { 1 } else { 0 };
                self.set_reg(FLAG, f);
                let r = self.v[y as usize].wrapping_sub(self.v[x as usize]);
                self.set_reg(x as usize, r);
            },
            Instruction::ShiftLeft { x } => {
                let vx = self.v[x as usize];
                assert((vx & 0x80) >> 7 == vx / 128) by (bit_vector);
                self.set_reg(FLAG, (vx & 0x80) >> 7);
                let vx2 = self.v[x as usize];
                assert(vx2 << 1 == ((vx2 * 2) % 256) as u8) by (bit_vector);
                self.set_reg(x as usize, vx2 << 1);
            },
            _ => {},
        }
    }

    /// Instructions that read or write memory, the display, the index or the timer.
    fn execute_mem(&mut self, ins: Instruction, rnd: u8)
        requires
            old(self)@.can_execute(ins),
            ins is Draw || ins is FontChar || ins is Bcd || ins is SetDelay || ins is StoreRegs || ins is LoadRegs || ins is AddIndex,
        ensures
            final(self)@ == old(self)@.execute(ins, rnd),
    {
        match ins {
            Instruction::Draw { x, y, n } => {
                self.draw(x, y, n);
            },
            Instruction::FontChar { x } => {
                self.i = (self.v[x as usize] * 5) as u16;
            },
            Instruction::Bcd { x } => {
                let vx = self.v[x as usize];
                let ghost m0 = self@;
                let at = self.i as usize;
                self.write_ram(at, vx / 100);
                self.write_ram(at + 1, (vx % 100) / 10);
                self.write_ram(at + 2, vx % 10);
                assert(self@.ram =~= write_block(m0.ram, m0.i as int, bcd_digits(vx)));
            },
            Instruction::SetDelay { x } => {
                self.delaytime = self.v[x as usize];
            },
            Instruction::StoreRegs { x } => {
                self.store_regs(x as usize);
            },
            Instruction::LoadRegs { x } => {
                self.load_regs(x as usize);
            },
            Instruction::AddIndex { x } => {
                self.i = self.i + self.v[x as usize] as u16;
                let f: u8 = if self.i > 0x0F00 { 1 } else { 0 };
                self.set_reg(FLAG, f);
            },
            _ => {},
        }
    }

    /// Executes one decoded instruction, the program counter already past it;
    /// `rnd` is the random byte that `CXKK` masks.
    pub fn execute(&mut self, ins: Instruction, rnd: u8)
        requires
            old(self)@.can_execute(ins),
        ensures
            final(self)@ == old(self)@.execute(ins, rnd),
    {
        match ins {
            Instruction::Clear | Instruction::Return | Instruction::Jump { .. }
            | Instruction::Call { .. } | Instruction::SkipEqImm { .. } | Instruction::SkipNeImm { .. }
            | Instruction::SkipEqReg { .. } | Instruction::SkipNeReg { .. }
            | Instruction::LoadIndex { .. } | Instruction::JumpOffset { .. }
            | Instruction::SkipNotPressed { .. } | Instruction::WaitKey { .. } => {
                self.execute_flow(ins, rnd);
            },
            Instruction::Draw { .. } | Instruction::FontChar { .. } | Instruction::Bcd { .. }
            | Instruction::SetDelay { .. } | Instruction::StoreRegs { .. }
            | Instruction::LoadRegs { .. } | Instruction::AddIndex { .. } => {
                self.execute_mem(ins, rnd);
            },
            Instruction::AddReg { .. } | Instruction::SubReg { .. } | Instruction::ShiftRight { .. }
            | Instruction::SubNeg { .. } | Instruction::ShiftLeft { .. } => {
                self.execute_flagged(ins, rnd);
            },
            _ => {
                self.execute_alu(ins, rnd);
            },
        }
    }

    /// Whether `ins`, fetched at the program counter, can execute once the
    /// program counter has moved past it.
    fn can_execute_next(&self, ins: Instruction) -> (r: bool)
        requires
            ins.wf(),
            self@.can_fetch(),
        ensures
            r == self@.skip().can_execute(ins),
    {
        proof {
            self.lemma_view_wf();
            assert(self@.skip().wf());
        }
        match ins {
            Instruction::Return => 1 <= self.sc && (self.sc as usize) < STACK_DEPTH,
            Instruction::Call { .. } => (self.sc as usize) < STACK_DEPTH,
            Instruction::Draw { n, .. } => self.i as usize + n as usize <= RAM_SIZE,
            Instruction::FontChar { x } => (self.v[x as usize] as u16) * 5 <= 0xFF,
            Instruction::Bcd { .. } => (self.i as usize) + 2 < RAM_SIZE,
            Instruction::StoreRegs { x } | Instruction::LoadRegs { x } => (self.i as usize)
                + (x as usize) < RAM_SIZE,
            Instruction::AddIndex { x } => (self.i as u32) + (self.v[x as usize] as u32) <= 0xFFFF,
            _ => true,
        }
    }

    /// Whether `step` can run: the opcode at the program counter lies in
    /// memory, is known, and executing it stays in bounds.
    pub fn can_step(&self) -> (r: bool)
        ensures
            r == self@.can_step(),
    {
        proof {
            self.lemma_view_wf();
        }
        if self.pc as usize + 1 >= RAM_SIZE {
            return false;
        }
        let op = self.fetch();
        proof {
            lemma_decode_wf(op);
        }
        match decode(op) {
            None => false,
            Some(ins) => self.can_execute_next(ins),
        }
    }

    /// One fetch/decode/execute cycle, with `rnd` as the random byte that a
    /// `CXKK` instruction masks.
    pub fn step_with(&mut self, rnd: u8)
        requires
            old(self)@.can_step(),
        ensures
            final(self)@ == old(self)@.step(rnd),
    {
        let op = self.fetch();
        match decode(op) {
            Some(ins) => {
                self.pc = self.pc + 2;
                self.execute(ins, rnd);
            },
            None => {},
        }
    }

    /// One fetch/decode/execute cycle. A `CXKK` instruction draws its random
    /// byte from the thread-local generator; every other instruction is
    /// deterministic.
    pub fn step(&mut self)
        requires
            old(self)@.can_step(),
        ensures
            exists|rnd: u8| final(self)@ == old(self)@.step(rnd),
            !(old(self)@.current().unwrap() is Random) ==> final(self)@ == old(self)@.step(0),
    {
        let op = self.fetch();
        let rnd = match decode(op) {
            Some(Instruction::Random { .. }) => random_byte(),
            _ => 0,
        };
        self.step_with(rnd);
        assert(self@ == old(self)@.step(rnd));
    }
}

} // verus!
