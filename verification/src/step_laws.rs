//! What one step does for each instruction, stated over the registers,
//! memory and program counter before and after the step.
use vstd::prelude::*;
use crate::instruction::{Instruction, decode_spec};
use crate::laws::{law_draw_xor, lemma_draw_rows_frame, sprite_hits_lit};
use crate::machine::{Machine, sprite_flips, SCREEN_WIDTH, SCREEN_HEIGHT, FLAG};

verus! {

/// `m` can step and the instruction at its program counter is `ins`.
pub open spec fn runs(m: Machine, ins: Instruction) -> bool {
    m.can_step() && m.current() == Some(ins)
}

/// Memory, display, index register, stack and timers of `d` are those of `m`.
pub open spec fn keeps_devices(m: Machine, d: Machine) -> bool {
    &&& d.ram == m.ram
    &&& d.display == m.display
    &&& d.i == m.i
    &&& d.stack == m.stack
    &&& d.sc == m.sc
    &&& d.delaytime == m.delaytime
    &&& d.soundtime == m.soundtime
}

/// Every register of `d` other than `a` and `b` holds what it held in `m`.
pub open spec fn keeps_regs_except(m: Machine, d: Machine, a: int, b: int) -> bool {
    &&& d.v.len() == 16
    &&& forall|r: int| 0 <= r < 16 && r != a && r != b ==> #[trigger] d.v[r] == m.v[r]
}

/// Bit `k` (0 is the least significant) of a byte is set.
pub open spec fn bit_set(b: u8, k: u8) -> bool {
    (b >> k) & 1u8 == 1u8
}

/// `3XKK`: the next instruction is skipped (the program counter moves by 4)
/// exactly when `Vx == kk`; otherwise it moves by 2. Nothing else changes.
pub proof fn law_skip_eq_imm(m: Machine, x: u8, kk: u8, rnd: u8)
    requires
        runs(m, Instruction::SkipEqImm { x, kk }),
    ensures
        m.step(rnd).pc == m.pc + (if m.v[x as int] == kk { 4int } else { 2 }),
        m.step(rnd).v == m.v,
        keeps_devices(m, m.step(rnd)),
{
}

/// `4XKK`: the next instruction is skipped exactly when `Vx != kk`.
pub proof fn law_skip_ne_imm(m: Machine, x: u8, kk: u8, rnd: u8)
    requires
        runs(m, Instruction::SkipNeImm { x, kk }),
    ensures
        m.step(rnd).pc == m.pc + (if m.v[x as int] != kk { 4int } else { 2 }),
        m.step(rnd).v == m.v,
        keeps_devices(m, m.step(rnd)),
{
}

/// `5XYN`: the next instruction is skipped exactly when `Vx == Vy`.
pub proof fn law_skip_eq_reg(m: Machine, x: u8, y: u8, rnd: u8)
    requires
        runs(m, Instruction::SkipEqReg { x, y }),
    ensures
        m.step(rnd).pc == m.pc + (if m.v[x as int] == m.v[y as int] { 4int } else { 2 }),
        m.step(rnd).v == m.v,
        keeps_devices(m, m.step(rnd)),
{
}

/// `9XY0`: the next instruction is skipped exactly when `Vx != Vy`.
pub proof fn law_skip_ne_reg(m: Machine, x: u8, y: u8, rnd: u8)
    requires
        runs(m, Instruction::SkipNeReg { x, y }),
    ensures
        m.step(rnd).pc == m.pc + (if m.v[x as int] != m.v[y as int] { 4int } else { 2 }),
        m.step(rnd).v == m.v,
        keeps_devices(m, m.step(rnd)),
{
}

/// `EXA1`: the next instruction is always skipped.
pub proof fn law_skip_not_pressed(m: Machine, x: u8, rnd: u8)
    requires
        runs(m, Instruction::SkipNotPressed { x }),
    ensures
        m.step(rnd).pc == m.pc + 4,
        m.step(rnd).v == m.v,
        keeps_devices(m, m.step(rnd)),
{
}

/// `FX0A`: only the program counter moves on, by 2.
pub proof fn law_wait_key(m: Machine, x: u8, rnd: u8)
    requires
        runs(m, Instruction::WaitKey { x }),
    ensures
        m.step(rnd).pc == m.pc + 2,
        m.step(rnd).v == m.v,
        keeps_devices(m, m.step(rnd)),
{
}

/// `1NNN`: the program counter becomes `nnn`.
pub proof fn law_jump(m: Machine, nnn: u16, rnd: u8)
    requires
        runs(m, Instruction::Jump { nnn }),
    ensures
        m.step(rnd).pc == nnn,
        m.step(rnd).pc == m.opcode() % 0x1000,
        m.step(rnd).v == m.v,
        keeps_devices(m, m.step(rnd)),
{
}

/// `BNNN`: the program counter becomes the sum `nnn + V0`.
pub proof fn law_jump_offset(m: Machine, nnn: u16, rnd: u8)
    requires
        runs(m, Instruction::JumpOffset { nnn }),
    ensures
        m.step(rnd).pc == nnn + m.v[0],
        m.step(rnd).pc == m.opcode() % 0x1000 + m.v[0],
        m.step(rnd).v == m.v,
        keeps_devices(m, m.step(rnd)),
{
}

/// `2NNN`: the address of the instruction after next is pushed on the stack
/// slot `sc`, `sc` grows by one, and execution goes on with the next
/// instruction (no jump is made).
pub proof fn law_call(m: Machine, nnn: u16, rnd: u8)
    requires
        runs(m, Instruction::Call { nnn }),
    ensures
        m.step(rnd).stack.len() == m.stack.len(),
        m.step(rnd).stack[m.sc as int] == m.pc + 4,
        forall|s: int| 0 <= s < 16 && s != m.sc ==> #[trigger] m.step(rnd).stack[s] == m.stack[s],
        m.step(rnd).sc == m.sc + 1,
        m.step(rnd).pc == m.pc + 2,
        m.step(rnd).v == m.v,
        m.step(rnd).ram == m.ram,
        m.step(rnd).display == m.display,
        m.step(rnd).i == m.i,
{
}

/// `00EE`: the program counter becomes the stack slot `sc`, and `sc` shrinks
/// by one.
pub proof fn law_return(m: Machine, rnd: u8)
    requires
        runs(m, Instruction::Return),
    ensures
        m.step(rnd).pc == m.stack[m.sc as int],
        m.step(rnd).sc + 1 == m.sc,
        m.step(rnd).stack == m.stack,
        m.step(rnd).v == m.v,
        m.step(rnd).ram == m.ram,
        m.step(rnd).display == m.display,
        m.step(rnd).i == m.i,
{
}

/// `00E0`: every pixel goes dark.
pub proof fn law_clear(m: Machine, rnd: u8)
    requires
        runs(m, Instruction::Clear),
    ensures
        m.step(rnd).display.len() == SCREEN_HEIGHT,
        forall|r: int, c: int|
            0 <= r < SCREEN_HEIGHT && 0 <= c < SCREEN_WIDTH ==> !#[trigger] m.step(rnd).display[r][c],
        forall|r: int| 0 <= r < SCREEN_HEIGHT ==> #[trigger] m.step(rnd).display[r].len() == SCREEN_WIDTH,
        m.step(rnd).pc == m.pc + 2,
        m.step(rnd).v == m.v,
        m.step(rnd).ram == m.ram,
        m.step(rnd).i == m.i,
{
}

/// The bits of `a | b`, `a & b` and `a ^ b`, one by one.
proof fn lemma_bitwise(a: u8, b: u8)
    ensures
        forall|k: u8| k < 8 ==> #[trigger] bit_set(a | b, k) == (bit_set(a, k) || bit_set(b, k)),
        forall|k: u8| k < 8 ==> #[trigger] bit_set(a & b, k) == (bit_set(a, k) && bit_set(b, k)),
        forall|k: u8| k < 8 ==> #[trigger] bit_set(a ^ b, k) == (bit_set(a, k) != bit_set(b, k)),
{
    assert forall|k: u8| k < 8 implies #[trigger] bit_set(a | b, k) == (bit_set(a, k) || bit_set(b, k)) by {
        assert((((a | b) >> k) & 1u8 == 1u8) == (((a >> k) & 1u8 == 1u8) || ((b >> k) & 1u8 == 1u8)))
            by (bit_vector);
    }
    assert forall|k: u8| k < 8 implies #[trigger] bit_set(a & b, k) == (bit_set(a, k) && bit_set(b, k)) by {
        assert((((a & b) >> k) & 1u8 == 1u8) == (((a >> k) & 1u8 == 1u8) && ((b >> k) & 1u8 == 1u8)))
            by (bit_vector);
    }
    assert forall|k: u8| k < 8 implies #[trigger] bit_set(a ^ b, k) == (bit_set(a, k) != bit_set(b, k)) by {
        assert((((a ^ b) >> k) & 1u8 == 1u8) == (((a >> k) & 1u8 == 1u8) != ((b >> k) & 1u8 == 1u8)))
            by (bit_vector);
    }
}

/// `6XKK`: `Vx` becomes `kk`; no other register changes.
pub proof fn law_load_imm(m: Machine, x: u8, kk: u8, rnd: u8)
    requires
        runs(m, Instruction::LoadImm { x, kk }),
    ensures
        m.step(rnd).v[x as int] == kk,
        keeps_regs_except(m, m.step(rnd), x as int, x as int),
        m.step(rnd).pc == m.pc + 2,
        keeps_devices(m, m.step(rnd)),
{
}

/// `7XKK`: `Vx` becomes `(Vx + kk) mod 256`; no other register changes, `VF`
/// included (unless `x` is `F`).
pub proof fn law_add_imm(m: Machine, x: u8, kk: u8, rnd: u8)
    requires
        runs(m, Instruction::AddImm { x, kk }),
    ensures
        m.step(rnd).v[x as int] == (m.v[x as int] + kk) % 256,
        keeps_regs_except(m, m.step(rnd), x as int, x as int),
        m.step(rnd).pc == m.pc + 2,
        keeps_devices(m, m.step(rnd)),
{
}

/// `8XY0`: `Vx` becomes `Vy`; no other register changes.
pub proof fn law_move(m: Machine, x: u8, y: u8, rnd: u8)
    requires
        runs(m, Instruction::Move { x, y }),
    ensures
        m.step(rnd).v[x as int] == m.v[y as int],
        keeps_regs_except(m, m.step(rnd), x as int, x as int),
        m.step(rnd).pc == m.pc + 2,
        keeps_devices(m, m.step(rnd)),
{
}

/// `8XY1`: each bit of the new `Vx` is set exactly when it is set in `Vx` or
/// in `Vy`; no other register changes.
pub proof fn law_or(m: Machine, x: u8, y: u8, rnd: u8)
    requires
        runs(m, Instruction::Or { x, y }),
    ensures
        forall|k: u8|
            k < 8 ==> #[trigger] bit_set(m.step(rnd).v[x as int], k) == (bit_set(m.v[x as int], k)
                || bit_set(m.v[y as int], k)),
        keeps_regs_except(m, m.step(rnd), x as int, x as int),
        m.step(rnd).pc == m.pc + 2,
        keeps_devices(m, m.step(rnd)),
{
    lemma_bitwise(m.v[x as int], m.v[y as int]);
}

/// `8XY2`: each bit of the new `Vx` is set exactly when it is set in both
/// `Vx` and `Vy`; no other register changes.
pub proof fn law_and(m: Machine, x: u8, y: u8, rnd: u8)
    requires
        runs(m, Instruction::And { x, y }),
    ensures
        forall|k: u8|
            k < 8 ==> #[trigger] bit_set(m.step(rnd).v[x as int], k) == (bit_set(m.v[x as int], k)
                && bit_set(m.v[y as int], k)),
        keeps_regs_except(m, m.step(rnd), x as int, x as int),
        m.step(rnd).pc == m.pc + 2,
        keeps_devices(m, m.step(rnd)),
{
    lemma_bitwise(m.v[x as int], m.v[y as int]);
}

/// `8XY3`: each bit of the new `Vx` is set exactly when `Vx` and `Vy` differ
/// there; no other register changes.
pub proof fn law_xor(m: Machine, x: u8, y: u8, rnd: u8)
    requires
        runs(m, Instruction::Xor { x, y }),
    ensures
        forall|k: u8|
            k < 8 ==> #[trigger] bit_set(m.step(rnd).v[x as int], k) == (bit_set(m.v[x as int], k)
                != bit_set(m.v[y as int], k)),
        keeps_regs_except(m, m.step(rnd), x as int, x as int),
        m.step(rnd).pc == m.pc + 2,
        keeps_devices(m, m.step(rnd)),
{
    lemma_bitwise(m.v[x as int], m.v[y as int]);
}

/// `CXKK`: each bit of the new `Vx` is set exactly when it is set in both the
/// random byte and `kk`; no other register changes.
pub proof fn law_random(m: Machine, x: u8, kk: u8, rnd: u8)
    requires
        runs(m, Instruction::Random { x, kk }),
    ensures
        forall|k: u8|
            k < 8 ==> #[trigger] bit_set(m.step(rnd).v[x as int], k) == (bit_set(rnd, k) && bit_set(kk, k)),
        keeps_regs_except(m, m.step(rnd), x as int, x as int),
        m.step(rnd).pc == m.pc + 2,
        keeps_devices(m, m.step(rnd)),
{
    lemma_bitwise(rnd, kk);
}

/// `8XY4`: `VF` ends as the carry of `Vx + Vy` (1 when the sum passes 255),
/// and, when `x` is not `F`, `Vx` as the sum modulo 256; no other register
/// changes.
pub proof fn law_add_reg(m: Machine, x: u8, y: u8, rnd: u8)
    requires
        runs(m, Instruction::AddReg { x, y }),
    ensures
        ({
            let d = m.step(rnd);
            let sum = m.v[x as int] + m.v[y as int];
            &&& d.v[FLAG as int] == (if sum > 255 { 1int } else { 0 })
            &&& x != FLAG ==> d.v[x as int] == sum % 256
            &&& keeps_regs_except(m, d, x as int, FLAG as int)
            &&& d.pc == m.pc + 2
            &&& keeps_devices(m, d)
        }),
{
}

/// `8XY5`: `VF` is first set to 1 when `Vx > Vy` and to 0 otherwise; then
/// `Vx` becomes `(Vx - Vy) mod 256`, reading `VF` as just set where `x` or
/// `y` is `F`. No other register changes.
pub proof fn law_sub_reg(m: Machine, x: u8, y: u8, rnd: u8)
    requires
        runs(m, Instruction::SubReg { x, y }),
    ensures
        ({
            let d = m.step(rnd);
            let f: int = if m.v[x as int] > m.v[y as int] { 1 } else { 0 };
            let a: int = if x == FLAG { f } else { m.v[x as int] as int };
            let b: int = if y == FLAG { f } else { m.v[y as int] as int };
            &&& d.v[x as int] == (a - b) % 256
            &&& x != FLAG ==> d.v[FLAG as int] == f
            &&& keeps_regs_except(m, d, x as int, FLAG as int)
            &&& d.pc == m.pc + 2
            &&& keeps_devices(m, d)
        }),
{
}

/// `8XY7`: `VF` is first set to 1 when `Vy > Vx` and to 0 otherwise; then
/// `Vx` becomes `(Vy - Vx) mod 256`, reading `VF` as just set where `x` or
/// `y` is `F`. No other register changes.
pub proof fn law_sub_neg(m: Machine, x: u8, y: u8, rnd: u8)
    requires
        runs(m, Instruction::SubNeg { x, y }),
    ensures
        ({
            let d = m.step(rnd);
            let f: int = if m.v[y as int] > m.v[x as int] { 1 } else { 0 };
            let a: int = if x == FLAG { f } else { m.v[x as int] as int };
            let b: int = if y == FLAG { f } else { m.v[y as int] as int };
            &&& d.v[x as int] == (b - a) % 256
            &&& x != FLAG ==> d.v[FLAG as int] == f
            &&& keeps_regs_except(m, d, x as int, FLAG as int)
            &&& d.pc == m.pc + 2
            &&& keeps_devices(m, d)
        }),
{
}

/// `8XY6`: `VF` is first set to the low bit of `Vx`; then `Vx` is halved
/// (rounding down), reading `VF` as just set where `x` is `F`. No other
/// register changes.
pub proof fn law_shift_right_step(m: Machine, x: u8, rnd: u8)
    requires
        runs(m, Instruction::ShiftRight { x }),
    ensures
        ({
            let d = m.step(rnd);
            let f: int = (m.v[x as int] % 2) as int;
            let a: int = if x == FLAG { f } else { m.v[x as int] as int };
            &&& d.v[x as int] == a / 2
            &&& x != FLAG ==> d.v[FLAG as int] == f
            &&& keeps_regs_except(m, d, x as int, FLAG as int)
            &&& d.pc == m.pc + 2
            &&& keeps_devices(m, d)
        }),
{
}

/// `8XYE`: `VF` is first set to the high bit of `Vx`; then `Vx` is doubled
/// modulo 256, reading `VF` as just set where `x` is `F`. No other register
/// changes.
pub proof fn law_shift_left_step(m: Machine, x: u8, rnd: u8)
    requires
        runs(m, Instruction::ShiftLeft { x }),
    ensures
        ({
            let d = m.step(rnd);
            let f: int = if m.v[x as int] >= 128 { 1 } else { 0 };
            let a: int = if x == FLAG { f } else { m.v[x as int] as int };
            &&& d.v[x as int] == (2 * a) % 256
            &&& x != FLAG ==> d.v[FLAG as int] == f
            &&& keeps_regs_except(m, d, x as int, FLAG as int)
            &&& d.pc == m.pc + 2
            &&& keeps_devices(m, d)
        }),
{
}

/// `ANNN`: the index register becomes `nnn`, the low twelve bits of the opcode.
pub proof fn law_load_index(m: Machine, nnn: u16, rnd: u8)
    requires
        runs(m, Instruction::LoadIndex { nnn }),
    ensures
        m.step(rnd).i == nnn,
        m.step(rnd).i == m.opcode() % 0x1000,
        m.step(rnd).v == m.v,
        m.step(rnd).ram == m.ram,
        m.step(rnd).display == m.display,
        m.step(rnd).pc == m.pc + 2,
{
}

/// `FX29`: the index register becomes `5 * Vx`.
pub proof fn law_font_char(m: Machine, x: u8, rnd: u8)
    requires
        runs(m, Instruction::FontChar { x }),
    ensures
        m.step(rnd).i == 5 * m.v[x as int],
        m.step(rnd).v == m.v,
        m.step(rnd).ram == m.ram,
        m.step(rnd).display == m.display,
        m.step(rnd).pc == m.pc + 2,
{
}

/// `FX1E`: the index register grows by `Vx`, and then `VF` is 1 exactly when
/// the new index passes `0x0F00`; no other register changes.
pub proof fn law_add_index(m: Machine, x: u8, rnd: u8)
    requires
        runs(m, Instruction::AddIndex { x }),
    ensures
        m.step(rnd).i == m.i + m.v[x as int],
        m.step(rnd).v[FLAG as int] == (if m.i + m.v[x as int] > 0x0F00 { 1int } else { 0 }),
        keeps_regs_except(m, m.step(rnd), FLAG as int, FLAG as int),
        m.step(rnd).ram == m.ram,
        m.step(rnd).display == m.display,
        m.step(rnd).pc == m.pc + 2,
{
}

/// `FX07` and `FX15`: the delay timer becomes `Vx`.
pub proof fn law_set_delay(m: Machine, x: u8, rnd: u8)
    requires
        runs(m, Instruction::SetDelay { x }),
    ensures
        m.step(rnd).delaytime == m.v[x as int],
        m.step(rnd).soundtime == m.soundtime,
        m.step(rnd).v == m.v,
        m.step(rnd).ram == m.ram,
        m.step(rnd).i == m.i,
        m.step(rnd).pc == m.pc + 2,
{
}

/// `FX33`: memory at `I`, `I + 1`, `I + 2` holds the hundreds, tens and units
/// digits of `Vx`; every other byte is unchanged.
pub proof fn law_bcd_step(m: Machine, x: u8, rnd: u8)
    requires
        runs(m, Instruction::Bcd { x }),
    ensures
        ({
            let d = m.step(rnd);
            let i = m.i as int;
            &&& d.ram.len() == m.ram.len()
            &&& d.ram[i] <= 2 && d.ram[i + 1] < 10 && d.ram[i + 2] < 10
            &&& 100 * d.ram[i] + 10 * d.ram[i + 1] + d.ram[i + 2] == m.v[x as int]
            &&& forall|a: int| 0 <= a < m.ram.len() && !(i <= a < i + 3) ==> #[trigger] d.ram[a] == m.ram[a]
            &&& d.v == m.v
            &&& d.i == m.i
            &&& d.pc == m.pc + 2
        }),
{
}

/// `FX55`: memory at `I + k` holds `Vk` for every `k <= x`; every other byte,
/// and every register, is unchanged.
pub proof fn law_store_regs(m: Machine, x: u8, rnd: u8)
    requires
        runs(m, Instruction::StoreRegs { x }),
    ensures
        ({
            let d = m.step(rnd);
            let i = m.i as int;
            &&& d.ram.len() == m.ram.len()
            &&& forall|k: int| 0 <= k <= x ==> #[trigger] d.ram[i + k] == m.v[k]
            &&& forall|a: int| 0 <= a < m.ram.len() && !(i <= a <= i + x) ==> #[trigger] d.ram[a] == m.ram[a]
            &&& d.v == m.v
            &&& d.i == m.i
            &&& d.pc == m.pc + 2
        }),
{
}

/// `FX65`: `Vk` takes the byte at `I + k` for every `k <= x`; the other
/// registers and memory are unchanged.
pub proof fn law_load_regs(m: Machine, x: u8, rnd: u8)
    requires
        runs(m, Instruction::LoadRegs { x }),
    ensures
        ({
            let d = m.step(rnd);
            let i = m.i as int;
            &&& d.v.len() == 16
            &&& forall|k: int| 0 <= k <= x ==> #[trigger] d.v[k] == m.ram[i + k]
            &&& forall|k: int| x < k < 16 ==> #[trigger] d.v[k] == m.v[k]
            &&& d.ram == m.ram
            &&& d.i == m.i
            &&& d.pc == m.pc + 2
        }),
{
}

/// `DXYN` with `x, y != F`: a pixel changes exactly when the `n`-row sprite at
/// `I`, placed at `(Vx, Vy)` with wrap-around, has a set bit over it; `VF`
/// becomes 1 exactly when one of those pixels was lit; no other register,
/// and no memory, changes.
pub proof fn law_draw_step(m: Machine, x: u8, y: u8, n: u8, rnd: u8)
    requires
        runs(m, Instruction::Draw { x, y, n }),
        x != FLAG,
        y != FLAG,
    ensures
        forall|r: int, c: int|
            0 <= r < SCREEN_HEIGHT && 0 <= c < SCREEN_WIDTH ==> #[trigger] m.step(rnd).display[r][c] == (
            m.display[r][c] != sprite_flips(m, x as int, y as int, 8 * n, r, c)),
        m.step(rnd).v[FLAG as int] == (if sprite_hits_lit(m, x as int, y as int, 8 * n) { 1u8 } else { 0u8 }),
        keeps_regs_except(m, m.step(rnd), FLAG as int, FLAG as int),
        m.step(rnd).ram == m.ram,
        m.step(rnd).i == m.i,
        m.step(rnd).pc == m.pc + 2,
{
    let s = m.skip();
    let k = 8 * n;
    law_draw_xor(s, x, y, n, rnd);
    lemma_draw_rows_frame(s.with_v(FLAG as int, 0), x as int, y as int, n as nat);
    assert forall|r: int, c: int| #[trigger]
        sprite_flips(s, x as int, y as int, k, r, c) == sprite_flips(m, x as int, y as int, k, r, c) by {}
    if sprite_hits_lit(s, x as int, y as int, k) {
        let (r, c) = choose|r: int, c: int|
            0 <= r < SCREEN_HEIGHT && 0 <= c < SCREEN_WIDTH && #[trigger] sprite_flips(s, x as int, y as int, k, r, c)
                && s.display[r][c];
        assert(sprite_flips(m, x as int, y as int, k, r, c));
    }
    if sprite_hits_lit(m, x as int, y as int, k) {
        let (r, c) = choose|r: int, c: int|
            0 <= r < SCREEN_HEIGHT && 0 <= c < SCREEN_WIDTH && #[trigger] sprite_flips(m, x as int, y as int, k, r, c)
                && m.display[r][c];
        assert(sprite_flips(s, x as int, y as int, k, r, c));
    }
}

/// The decoding table read off the opcode's two bytes: the high nibble of
/// the first byte picks the family, the low nibble of the first byte is `x`,
/// the high nibble of the second is `y`, the second byte is `kk`, and the
/// low twelve bits are `nnn`.
pub proof fn law_decode_by_bytes(op: u16)
    ensures
        ({
            let hi = op as int / 256;
            let lo = op as int % 256;
            let fam = hi / 16;
            let x = (hi % 16) as u8;
            let y = (lo / 16) as u8;
            let n = (lo % 16) as u8;
            let kk = lo as u8;
            let nnn = (op as int % 4096) as u16;
            &&& op == 0x00E0 ==> decode_spec(op) == Some(Instruction::Clear)
            &&& op == 0x00EE ==> decode_spec(op) == Some(Instruction::Return)
            &&& fam == 0 && op != 0x00E0 && op != 0x00EE ==> decode_spec(op) is None
            &&& fam == 1 ==> decode_spec(op) == Some(Instruction::Jump { nnn })
            &&& fam == 2 ==> decode_spec(op) == Some(Instruction::Call { nnn })
            &&& fam == 3 ==> decode_spec(op) == Some(Instruction::SkipEqImm { x, kk })
            &&& fam == 4 ==> decode_spec(op) == Some(Instruction::SkipNeImm { x, kk })
            &&& fam == 5 ==> decode_spec(op) == Some(Instruction::SkipEqReg { x, y })
            &&& fam == 6 ==> decode_spec(op) == Some(Instruction::LoadImm { x, kk })
            &&& fam == 7 ==> decode_spec(op) == Some(Instruction::AddImm { x, kk })
            &&& fam == 8 && n == 0 ==> decode_spec(op) == Some(Instruction::Move { x, y })
            &&& fam == 8 && n == 1 ==> decode_spec(op) == Some(Instruction::Or { x, y })
            &&& fam == 8 && n == 2 ==> decode_spec(op) == Some(Instruction::And { x, y })
            &&& fam == 8 && n == 3 ==> decode_spec(op) == Some(Instruction::Xor { x, y })
            &&& fam == 8 && n == 4 ==> decode_spec(op) == Some(Instruction::AddReg { x, y })
            &&& fam == 8 && n == 5 ==> decode_spec(op) == Some(Instruction::SubReg { x, y })
            &&& fam == 8 && n == 6 ==> decode_spec(op) == Some(Instruction::ShiftRight { x })
            &&& fam == 8 && n == 7 ==> decode_spec(op) == Some(Instruction::SubNeg { x, y })
            &&& fam == 8 && n == 0xE ==> decode_spec(op) == Some(Instruction::ShiftLeft { x })
            &&& fam == 8 && 8 <= n < 0xE ==> decode_spec(op) is None
            &&& fam == 8 && n == 0xF ==> decode_spec(op) is None
            &&& fam == 9 && n == 0 ==> decode_spec(op) == Some(Instruction::SkipNeReg { x, y })
            &&& fam == 9 && n != 0 ==> decode_spec(op) is None
            &&& fam == 0xA ==> decode_spec(op) == Some(Instruction::LoadIndex { nnn })
            &&& fam == 0xB ==> decode_spec(op) == Some(Instruction::JumpOffset { nnn })
            &&& fam == 0xC ==> decode_spec(op) == Some(Instruction::Random { x, kk })
            &&& fam == 0xD ==> decode_spec(op) == Some(Instruction::Draw { x, y, n })
            &&& fam == 0xE && kk == 0xA1 ==> decode_spec(op) == Some(Instruction::SkipNotPressed { x })
            &&& fam == 0xE && kk != 0xA1 ==> decode_spec(op) is None
            &&& fam == 0xF && kk == 0x29 ==> decode_spec(op) == Some(Instruction::FontChar { x })
            &&& fam == 0xF && kk == 0x33 ==> decode_spec(op) == Some(Instruction::Bcd { x })
            &&& fam == 0xF && (kk == 0x07 || kk == 0x15) ==> decode_spec(op) == Some(Instruction::SetDelay { x })
            &&& fam == 0xF && kk == 0x55 ==> decode_spec(op) == Some(Instruction::StoreRegs { x })
            &&& fam == 0xF && kk == 0x65 ==> decode_spec(op) == Some(Instruction::LoadRegs { x })
            &&& fam == 0xF && kk == 0x0A ==> decode_spec(op) == Some(Instruction::WaitKey { x })
            &&& fam == 0xF && kk == 0x1E ==> decode_spec(op) == Some(Instruction::AddIndex { x })
            &&& fam == 0xF && !(kk == 0x29 || kk == 0x33 || kk == 0x07 || kk == 0x15 || kk == 0x55
                || kk == 0x65 || kk == 0x0A || kk == 0x1E) ==> decode_spec(op) is None
        }),
{
}

/// The opcode a step runs is the big-endian pair of bytes at the program
/// counter.
pub proof fn law_opcode_from_memory(m: Machine)
    requires
        m.can_step(),
    ensures
        m.opcode() == 256 * m.ram[m.pc as int] + m.ram[m.pc + 1],
        m.current() == decode_spec(m.opcode()),
{
}

} // verus!
