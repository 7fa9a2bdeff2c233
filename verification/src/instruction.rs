use vstd::prelude::*;

verus! {

/// One decoded CHIP-8 instruction. Register operands `x` and `y` are nibbles
/// (`0..16`), `kk` is the low byte of the opcode and `nnn` its low twelve bits.
#[derive(Clone, Copy, Debug, PartialEq, Eq, Structural)]
pub enum Instruction {
    /// `00E0`: clear the display.
    Clear,
    /// `00EE`: return from a subroutine.
    Return,
    /// `1NNN`: jump to `nnn`.
    Jump { nnn: u16 },
    /// `2NNN`: push the return address.
    Call { nnn: u16 },
    /// `3XKK`: skip the next instruction if `Vx == kk`.
    SkipEqImm { x: u8, kk: u8 },
    /// `4XKK`: skip the next instruction if `Vx != kk`.
    SkipNeImm { x: u8, kk: u8 },
    /// `5XYN`: skip the next instruction if `Vx == Vy`.
    SkipEqReg { x: u8, y: u8 },
    /// `6XKK`: `Vx = kk`.
    LoadImm { x: u8, kk: u8 },
    /// `7XKK`: `Vx += kk`, wrapping, without carry.
    AddImm { x: u8, kk: u8 },
    /// `8XY0`: `Vx = Vy`.
    Move { x: u8, y: u8 },
    /// `8XY1`: `Vx |= Vy`.
    Or { x: u8, y: u8 },
    /// `8XY2`: `Vx &= Vy`.
    And { x: u8, y: u8 },
    /// `8XY3`: `Vx ^= Vy`.
    Xor { x: u8, y: u8 },
    /// `8XY4`: `Vx += Vy`, with the carry in `VF`.
    AddReg { x: u8, y: u8 },
    /// `8XY5`: `Vx -= Vy`, with "no borrow" in `VF`.
    SubReg { x: u8, y: u8 },
    /// `8XY6`: `Vx >>= 1`, with the bit shifted out in `VF`.
    ShiftRight { x: u8 },
    /// `8XY7`: `Vx = Vy - Vx`, with "no borrow" in `VF`.
    SubNeg { x: u8, y: u8 },
    /// `8XYE`: `Vx <<= 1`, with the bit shifted out in `VF`.
    ShiftLeft { x: u8 },
    /// `9XY0`: skip the next instruction if `Vx != Vy`.
    SkipNeReg { x: u8, y: u8 },
    /// `ANNN`: `I = nnn`.
    LoadIndex { nnn: u16 },
    /// `BNNN`: jump to `nnn + V0`.
    JumpOffset { nnn: u16 },
    /// `CXKK`: `Vx = random & kk`.
    Random { x: u8, kk: u8 },
    /// `DXYN`: draw an `n`-row sprite from `I` at `(Vx, Vy)`.
    Draw { x: u8, y: u8, n: u8 },
    /// `EXA1`: skip the next instruction (no key is ever reported pressed).
    SkipNotPressed { x: u8 },
    /// `FX29`: `I = Vx * 5`, the address of the font sprite of digit `Vx`.
    FontChar { x: u8 },
    /// `FX33`: store the decimal digits of `Vx` at `I`, `I + 1`, `I + 2`.
    Bcd { x: u8 },
    /// `FX07` and `FX15`: the delay timer is set to `Vx`.
    SetDelay { x: u8 },
    /// `FX55`: store `V0..=Vx` at `I..=I + x`.
    StoreRegs { x: u8 },
    /// `FX65`: load `V0..=Vx` from `I..=I + x`.
    LoadRegs { x: u8 },
    /// `FX0A`: wait for a key; does nothing.
    WaitKey { x: u8 },
    /// `FX1E`: `I += Vx`, with `VF` set when `I` passes `0x0F00`.
    AddIndex { x: u8 },
}

/// The four nibbles of an opcode, most significant first.
pub open spec fn nib_a(op: u16) -> u16 {
    op / 0x1000
}

pub open spec fn nib_x(op: u16) -> u8 {
    ((op / 0x100) % 0x10) as u8
}

pub open spec fn nib_y(op: u16) -> u8 {
    ((op / 0x10) % 0x10) as u8
}

pub open spec fn nib_n(op: u16) -> u8 {
    (op % 0x10) as u8
}

pub open spec fn low_byte(op: u16) -> u8 {
    (op % 0x100) as u8
}

pub open spec fn low_twelve(op: u16) -> u16 {
    op % 0x1000
}

/// The decoding table: which instruction each opcode stands for, or `None`
/// for an opcode the interpreter does not know.
pub open spec fn decode_spec(op: u16) -> Option<Instruction> {
    let a = nib_a(op);
    let x = nib_x(op);
    let y = nib_y(op);
    let n = nib_n(op);
    let kk = low_byte(op);
    let nnn = low_twelve(op);
    if a == 0x0 {
        if x == 0 && y == 0xE && n == 0x0 {
            Some(Instruction::Clear)
        } else if x == 0 && y == 0xE && n == 0xE {
            Some(Instruction::Return)
        } else {
            None
        }
    } else if a == 0x1 {
        Some(Instruction::Jump { nnn })
    } else if a == 0x2 {
        Some(Instruction::Call { nnn })
    } else if a == 0x3 {
        Some(Instruction::SkipEqImm { x, kk })
    } else if a == 0x4 {
        Some(Instruction::SkipNeImm { x, kk })
    } else if a == 0x5 {
        Some(Instruction::SkipEqReg { x, y })
    } else if a == 0x6 {
        Some(Instruction::LoadImm { x, kk })
    } else if a == 0x7 {
        Some(Instruction::AddImm { x, kk })
    } else if a == 0x8 {
        if n == 0x0 {
            Some(Instruction::Move { x, y })
        } else if n == 0x1 {
            Some(Instruction::Or { x, y })
        } else if n == 0x2 {
            Some(Instruction::And { x, y })
        } else if n == 0x3 {
            Some(Instruction::Xor { x, y })
        } else if n == 0x4 {
            Some(Instruction::AddReg { x, y })
        } else if n == 0x5 {
            Some(Instruction::SubReg { x, y })
        } else if n == 0x6 {
            Some(Instruction::ShiftRight { x })
        } else if n == 0x7 {
            Some(Instruction::SubNeg { x, y })
        } else if n == 0xE {
            Some(Instruction::ShiftLeft { x })
        } else {
            None
        }
    } else if a == 0x9 {
        if n == 0 {
            Some(Instruction::SkipNeReg { x, y })
        } else {
            None
        }
    } else if a == 0xA {
        Some(Instruction::LoadIndex { nnn })
    } else if a == 0xB {
        Some(Instruction::JumpOffset { nnn })
    } else if a == 0xC {
        Some(Instruction::Random { x, kk })
    } else if a == 0xD {
        Some(Instruction::Draw { x, y, n })
    } else if a == 0xE {
        if y == 0xA && n == 0x1 {
            Some(Instruction::SkipNotPressed { x })
        } else {
            None
        }
    } else {
        if y == 0x2 && n == 0x9 {
            Some(Instruction::FontChar { x })
        } else if y == 0x3 && n == 0x3 {
            Some(Instruction::Bcd { x })
        } else if y == 0x0 && n == 0x7 {
            Some(Instruction::SetDelay { x })
        } else if y == 0x5 && n == 0x5 {
            Some(Instruction::StoreRegs { x })
        } else if y == 0x6 && n == 0x5 {
            Some(Instruction::LoadRegs { x })
        } else if y == 0x0 && n == 0xA {
            Some(Instruction::WaitKey { x })
        } else if y == 0x1 && n == 0xE {
            Some(Instruction::AddIndex { x })
        } else if y == 0x1 && n == 0x5 {
            Some(Instruction::SetDelay { x })
        } else {
            None
        }
    }
}

impl Instruction {
    /// Every operand is in the range its field of the opcode allows.
    pub open spec fn wf(self) -> bool {
        match self {
            Instruction::Clear | Instruction::Return => true,
            Instruction::Jump { nnn } | Instruction::Call { nnn } | Instruction::LoadIndex { nnn }
            | Instruction::JumpOffset { nnn } => nnn < 0x1000,
            Instruction::SkipEqImm { x, .. } | Instruction::SkipNeImm { x, .. }
            | Instruction::LoadImm { x, .. } | Instruction::AddImm { x, .. }
            | Instruction::Random { x, .. } => x < 16,
            Instruction::SkipEqReg { x, y } | Instruction::Move { x, y } | Instruction::Or { x, y }
            | Instruction::And { x, y } | Instruction::Xor { x, y } | Instruction::AddReg { x, y }
            | Instruction::SubReg { x, y } | Instruction::SubNeg { x, y }
            | Instruction::SkipNeReg { x, y } => x < 16 && y < 16,
            Instruction::Draw { x, y, n } => x < 16 && y < 16 && n < 16,
            Instruction::ShiftRight { x } | Instruction::ShiftLeft { x }
            | Instruction::SkipNotPressed { x } | Instruction::FontChar { x } | Instruction::Bcd { x }
            | Instruction::SetDelay { x } | Instruction::StoreRegs { x } | Instruction::LoadRegs { x }
            | Instruction::WaitKey { x } | Instruction::AddIndex { x } => x < 16,
        }
    }
}

/// Whatever `decode_spec` yields has its operands in range.
pub proof fn lemma_decode_wf(op: u16)
    ensures
        decode_spec(op) matches Some(ins) ==> ins.wf(),
{
}

/// Decodes a 16-bit opcode; `None` for one the interpreter does not know.
pub fn decode(opcode: u16) -> (r: Option<Instruction>)
    ensures
        r == decode_spec(opcode),
{
    let a: u8 = ((opcode & 0xF000) >> 12) as u8;
    let x: u8 = ((opcode & 0x0F00) >> 8) as u8;
    let y: u8 = ((opcode & 0x00F0) >> 4) as u8;
    let n: u8 = (opcode & 0x000F) as u8;
    let kk: u8 = (opcode & 0x00FF) as u8;
    let nnn: u16 = opcode & 0x0FFF;
    proof {
        lemma_nibbles(opcode);
    }
    match (a, x, y, n) {
        (0x0, 0x0, 0xE, 0x0) => Some(Instruction::Clear),
        (0x0, 0x0, 0xE, 0xE) => Some(Instruction::Return),
        (0x1, _, _, _) => Some(Instruction::Jump { nnn }),
        (0x2, _, _, _) => Some(Instruction::Call { nnn }),
        (0x3, _, _, _) => Some(Instruction::SkipEqImm { x, kk }),
        (0x4, _, _, _) => Some(Instruction::SkipNeImm { x, kk }),
        (0x5, _, _, _) => Some(Instruction::SkipEqReg { x, y }),
        (0x6, _, _, _) => Some(Instruction::LoadImm { x, kk }),
        (0x7, _, _, _) => Some(Instruction::AddImm { x, kk }),
        (0x8, _, _, 0x0) => Some(Instruction::Move { x, y }),
        (0x8, _, _, 0x1) => Some(Instruction::Or { x, y }),
        (0x8, _, _, 0x2) => Some(Instruction::And { x, y }),
        (0x8, _, _, 0x3) => Some(Instruction::Xor { x, y }),
        (0x8, _, _, 0x4) => Some(Instruction::AddReg { x, y }),
        (0x8, _, _, 0x5) => Some(Instruction::SubReg { x, y }),
        (0x8, _, _, 0x6) => Some(Instruction::ShiftRight { x }),
        (0x8, _, _, 0x7) => Some(Instruction::SubNeg { x, y }),
        (0x8, _, _, 0xE) => Some(Instruction::ShiftLeft { x }),
        (0x9, _, _, 0x0) => Some(Instruction::SkipNeReg { x, y }),
        (0xA, _, _, _) => Some(Instruction::LoadIndex { nnn }),
        (0xB, _, _, _) => Some(Instruction::JumpOffset { nnn }),
        (0xC, _, _, _) => Some(Instruction::Random { x, kk }),
        (0xD, _, _, _) => Some(Instruction::Draw { x, y, n }),
        (0xE, _, 0xA, 0x1) => Some(Instruction::SkipNotPressed { x }),
        (0xF, _, 0x2, 0x9) => Some(Instruction::FontChar { x }),
        (0xF, _, 0x3, 0x3) => Some(Instruction::Bcd { x }),
        (0xF, _, 0x0, 0x7) => Some(Instruction::SetDelay { x }),
        (0xF, _, 0x5, 0x5) => Some(Instruction::StoreRegs { x }),
        (0xF, _, 0x6, 0x5) => Some(Instruction::LoadRegs { x }),
        (0xF, _, 0x0, 0xA) => Some(Instruction::WaitKey { x }),
        (0xF, _, 0x1, 0xE) => Some(Instruction::AddIndex { x }),
        (0xF, _, 0x1, 0x5) => Some(Instruction::SetDelay { x }),
        _ => None,
    }
}

/// The masks and shifts that split an opcode give its nibbles.
proof fn lemma_nibbles(op: u16)
    ensures
        ((op & 0xF000) >> 12) as u8 as u16 == nib_a(op),
        ((op & 0x0F00) >> 8) as u8 == nib_x(op),
        ((op & 0x00F0) >> 4) as u8 == nib_y(op),
        (op & 0x000F) as u8 == nib_n(op),
        (op & 0x00FF) as u8 == low_byte(op),
        op & 0x0FFF == low_twelve(op),
{
    assert(((op & 0xF000) >> 12) as u8 as u16 == op / 0x1000) by (bit_vector);
    assert(((op & 0x0F00) >> 8) as u8 == ((op / 0x100) % 0x10) as u8) by (bit_vector);
    assert(((op & 0x00F0) >> 4) as u8 == ((op / 0x10) % 0x10) as u8) by (bit_vector);
    assert((op & 0x000F) as u8 == (op % 0x10) as u8) by (bit_vector);
    assert((op & 0x00FF) as u8 == (op % 0x100) as u8) by (bit_vector);
    assert(op & 0x0FFF == op % 0x1000) by (bit_vector);
}

} // verus!
