use vstd::prelude::*;
use vstd::arithmetic::power2::{pow2, lemma2_to64};
use vstd::arithmetic::div_mod::{lemma_fundamental_div_mod, lemma_fundamental_div_mod_converse};
use crate::font::{FONT_MEM, FONT_START};
use crate::instruction::Instruction;
use crate::input::keypad_layout;
use crate::machine::{
    Machine, write_block, sprite_flips, sprite_bit, msb_bit, RAM_SIZE, PROGRAM_START, SCREEN_WIDTH, SCREEN_HEIGHT, FLAG,
};

verus! {

/// The parts of the machine that drawing sprite pixels leaves alone: all
/// but the display and `VF`; every component keeps its size.
pub open spec fn draw_frame(m: Machine, d: Machine) -> bool {
    &&& d.wf()
    &&& d.ram == m.ram
    &&& d.i == m.i
    &&& d.pc == m.pc
    &&& d.stack == m.stack
    &&& d.sc == m.sc
    &&& d.delaytime == m.delaytime
    &&& d.soundtime == m.soundtime
    &&& forall|r: int| 0 <= r < 16 && r != FLAG ==> #[trigger] d.v[r] == m.v[r]
}

/// Drawing the first `b` bits of a sprite row changes only the display and `VF`.
pub proof fn lemma_draw_row_frame(m: Machine, x: int, r: int, row: int, b: nat)
    requires
        m.wf(),
        0 <= x < 16,
        0 <= r < SCREEN_HEIGHT,
    ensures
        draw_frame(m, m.draw_row(x, r, row, b)),
    decreases b,
{
    if b > 0 {
        lemma_draw_row_frame(m, x, r, row, (b - 1) as nat);
        let p = m.draw_row(x, r, row, (b - 1) as nat);
        let d = m.draw_row(x, r, row, b);
        assert(d == p.draw_pixel(x, r, row, b - 1));
        assert forall|rr: int| 0 <= rr < SCREEN_HEIGHT implies (#[trigger] d.display[rr]).len()
            == SCREEN_WIDTH by {
            if rr != r {
                assert(d.display[rr] == p.display[rr]);
            }
        }
    }
}

/// Drawing the first `rows` rows of a sprite changes only the display and `VF`.
pub proof fn lemma_draw_rows_frame(m: Machine, x: int, y: int, rows: nat)
    requires
        m.wf(),
        0 <= x < 16,
        0 <= y < 16,
    ensures
        draw_frame(m, m.draw_rows(x, y, rows)),
    decreases rows,
{
    if rows > 0 {
        lemma_draw_rows_frame(m, x, y, (rows - 1) as nat);
        let p = m.draw_rows(x, y, (rows - 1) as nat);
        lemma_draw_row_frame(p, x, (p.v[y] + (rows - 1)) % (SCREEN_HEIGHT as int), rows - 1, 8);
    }
}

/// The first `rows` rows of a sprite and then the first `b` bits of the next.
pub open spec fn partial_draw(m: Machine, x: int, y: int, rows: nat, b: nat) -> Machine {
    let p = m.draw_rows(x, y, rows);
    p.draw_row(x, (p.v[y] + rows) % (SCREEN_HEIGHT as int), rows as int, b)
}

/// An offset added to a base and wrapped around `m` is found again by
/// subtracting the base, modulo `m`.
proof fn lemma_wrap_offset(base: int, off: int, m: int)
    requires
        0 <= base,
        0 <= off < m,
    ensures
        ((base + off) % m - base) % m == off,
{
    lemma_fundamental_div_mod(base + off, m);
    let q = (base + off) / m;
    assert(((base + off) % m - base) == (-q) * m + off) by (nonlinear_arith)
        requires
            base + off == m * q + (base + off) % m,
    ;
    lemma_fundamental_div_mod_converse((base + off) % m - base, m, -q, off);
}

/// A position, taken relative to a base modulo `m` and then shifted back by
/// that base, is the position again.
proof fn lemma_wrap_back(base: int, r: int, m: int)
    requires
        0 <= base,
        0 <= r < m,
    ensures
        (base + (r - base) % m) % m == r,
{
    lemma_fundamental_div_mod(r - base, m);
    let q = (r - base) / m;
    assert(base + (r - base) % m == (-q) * m + r) by (nonlinear_arith)
        requires
            r - base == m * q + (r - base) % m,
    ;
    lemma_fundamental_div_mod_converse(base + (r - base) % m, m, -q, r);
}

/// A sprite bit is 0 or 1.
proof fn lemma_sprite_bit_is_bit(b: u8, bit: int)
    ensures
        sprite_bit(b, bit) <= 1,
{
    let s = (7 - bit) as usize;
    assert((b >> s) & 1u8 <= 1) by (bit_vector);
}

/// The bit that drawing reads from a sprite byte is the one `msb_bit` names.
proof fn lemma_sprite_bit_msb(b: u8, bit: int)
    requires
        0 <= bit < 8,
    ensures
        (sprite_bit(b, bit) != 0) == msb_bit(b, bit),
{
    lemma2_to64();
    if bit == 0 {
        assert(((b >> 7usize) & 1u8 != 0) == ((b / 128) % 2 == 1)) by (bit_vector);
        assert(sprite_bit(b, bit) == (b >> 7usize) & 1u8);
        assert(pow2((7 - bit) as nat) == 128);
    } else if bit == 1 {
        assert(((b >> 6usize) & 1u8 != 0) == ((b / 64) % 2 == 1)) by (bit_vector);
        assert(sprite_bit(b, bit) == (b >> 6usize) & 1u8);
        assert(pow2((7 - bit) as nat) == 64);
    } else if bit == 2 {
        assert(((b >> 5usize) & 1u8 != 0) == ((b / 32) % 2 == 1)) by (bit_vector);
        assert(sprite_bit(b, bit) == (b >> 5usize) & 1u8);
        assert(pow2((7 - bit) as nat) == 32);
    } else if bit == 3 {
        assert(((b >> 4usize) & 1u8 != 0) == ((b / 16) % 2 == 1)) by (bit_vector);
        assert(sprite_bit(b, bit) == (b >> 4usize) & 1u8);
        assert(pow2((7 - bit) as nat) == 16);
    } else if bit == 4 {
        assert(((b >> 3usize) & 1u8 != 0) == ((b / 8) % 2 == 1)) by (bit_vector);
        assert(sprite_bit(b, bit) == (b >> 3usize) & 1u8);
        assert(pow2((7 - bit) as nat) == 8);
    } else if bit == 5 {
        assert(((b >> 2usize) & 1u8 != 0) == ((b / 4) % 2 == 1)) by (bit_vector);
        assert(sprite_bit(b, bit) == (b >> 2usize) & 1u8);
        assert(pow2((7 - bit) as nat) == 4);
    } else if bit == 6 {
        assert(((b >> 1usize) & 1u8 != 0) == ((b / 2) % 2 == 1)) by (bit_vector);
        assert(sprite_bit(b, bit) == (b >> 1usize) & 1u8);
        assert(pow2((7 - bit) as nat) == 2);
    } else {
        assert(((b >> 0usize) & 1u8 != 0) == ((b / 1) % 2 == 1)) by (bit_vector);
        assert(sprite_bit(b, bit) == (b >> 0usize) & 1u8);
        assert(pow2((7 - bit) as nat) == 1);
    }
}

/// The pixel with index `q` (row `q / 8`, bit `q % 8`) of a sprite lands on
/// `(r0, c0)`: taking it in adds that position, when its bit is set, and no
/// other, and no earlier pixel lands there.
proof fn lemma_flips_step(m: Machine, x: int, y: int, q: int)
    requires
        m.wf(),
        0 <= x < 16,
        0 <= y < 16,
        0 <= q < 8 * 16,
    ensures
        ({
            let r0 = (m.v[y] + q / 8) % (SCREEN_HEIGHT as int);
            let c0 = (m.v[x] + q % 8) % (SCREEN_WIDTH as int);
            let color = sprite_bit(m.ram[m.i + q / 8], q % 8);
            &&& !sprite_flips(m, x, y, q, r0, c0)
            &&& forall|r: int, c: int|
                0 <= r < SCREEN_HEIGHT && 0 <= c < SCREEN_WIDTH ==> #[trigger] sprite_flips(m, x, y, q + 1, r, c)
                    == (sprite_flips(m, x, y, q, r, c) || (r == r0 && c == c0 && color != 0))
        }),
{
    let row = q / 8;
    let bit = q % 8;
    assert(q == 8 * row + bit);
    let r0 = (m.v[y] + row) % (SCREEN_HEIGHT as int);
    let c0 = (m.v[x] + bit) % (SCREEN_WIDTH as int);
    lemma_wrap_offset(m.v[y] as int, row, SCREEN_HEIGHT as int);
    lemma_wrap_offset(m.v[x] as int, bit, SCREEN_WIDTH as int);
    lemma_sprite_bit_msb(m.ram[m.i + row], bit);
    assert forall|r: int, c: int|
        0 <= r < SCREEN_HEIGHT && 0 <= c < SCREEN_WIDTH implies #[trigger] sprite_flips(m, x, y, q + 1, r, c)
            == (sprite_flips(m, x, y, q, r, c) || (r == r0 && c == c0 && sprite_bit(m.ram[m.i + row], bit) != 0)) by {
        let ro = (r - m.v[y]) % (SCREEN_HEIGHT as int);
        let bo = (c - m.v[x]) % (SCREEN_WIDTH as int);
        if !(r == r0 && c == c0) && bo < 8 && 8 * ro + bo == q {
            lemma_fundamental_div_mod_converse(q, 8, ro, bo);
            lemma_wrap_back(m.v[y] as int, r, SCREEN_HEIGHT as int);
            lemma_wrap_back(m.v[x] as int, c, SCREEN_WIDTH as int);
        }
    }
}

/// Whether some pixel that the sprite flips among its first `k` was lit.
pub open spec fn sprite_hits_lit(m: Machine, x: int, y: int, k: int) -> bool {
    exists|r: int, c: int|
        0 <= r < SCREEN_HEIGHT && 0 <= c < SCREEN_WIDTH && #[trigger] sprite_flips(m, x, y, k, r, c)
            && m.display[r][c]
}

/// What a drawn sprite has done to the display after its first `k` pixels,
/// measured against the machine `m` it started from.
pub open spec fn flips_so_far(m: Machine, x: int, y: int, k: int, d: Machine) -> bool {
    forall|r: int, c: int|
        0 <= r < SCREEN_HEIGHT && 0 <= c < SCREEN_WIDTH ==> #[trigger] d.display[r][c] == (m.display[r][c]
            != sprite_flips(m, x, y, k, r, c))
}

/// The machine after pixel `q` of the sprite, drawn on `p`, the machine after
/// the pixels before it.
pub open spec fn next_pixel(m: Machine, x: int, y: int, q: int, p: Machine) -> Machine {
    p.draw_pixel(x, (m.v[y] + q / 8) % (SCREEN_HEIGHT as int), q / 8, q % 8)
}

/// Drawing pixel `q` extends the flipped pixels by its own position.
proof fn lemma_pixel_display(m: Machine, x: int, y: int, q: int, p: Machine)
    requires
        m.wf(),
        0 <= x < 16,
        0 <= y < 16,
        0 <= q < 8 * 16,
        p.wf(),
        p.v[x] == m.v[x],
        p.ram == m.ram,
        p.i == m.i,
        flips_so_far(m, x, y, q, p),
    ensures
        flips_so_far(m, x, y, q + 1, next_pixel(m, x, y, q, p)),
{
    lemma_flips_step(m, x, y, q);
    let d = next_pixel(m, x, y, q, p);
    let r0 = (m.v[y] + q / 8) % (SCREEN_HEIGHT as int);
    let c0 = (m.v[x] + q % 8) % (SCREEN_WIDTH as int);
    let color = sprite_bit(m.ram[m.i + q / 8], q % 8);
    assert forall|r: int, c: int|
        0 <= r < SCREEN_HEIGHT && 0 <= c < SCREEN_WIDTH implies #[trigger] d.display[r][c] == (m.display[r][c]
            != sprite_flips(m, x, y, q + 1, r, c)) by {
        assert(sprite_flips(m, x, y, q + 1, r, c) == (sprite_flips(m, x, y, q, r, c) || (r == r0 && c == c0
            && color != 0)));
        assert(p.display[r][c] == (m.display[r][c] != sprite_flips(m, x, y, q, r, c)));
        if r != r0 {
            assert(d.display[r] == p.display[r]);
        }
    }
}

/// Drawing pixel `q` sets `VF` when it turns a lit pixel off, and keeps it.
proof fn lemma_pixel_flag(m: Machine, x: int, y: int, q: int, p: Machine)
    requires
        m.wf(),
        0 <= x < 16,
        0 <= y < 16,
        0 <= q < 8 * 16,
        p.wf(),
        p.v[x] == m.v[x],
        p.ram == m.ram,
        p.i == m.i,
        flips_so_far(m, x, y, q, p),
        p.v[FLAG as int] == (if sprite_hits_lit(m, x, y, q) { 1u8 } else { 0u8 }),
    ensures
        next_pixel(m, x, y, q, p).v[FLAG as int] == (if sprite_hits_lit(m, x, y, q + 1) { 1u8 } else { 0u8 }),
{
    lemma_flips_step(m, x, y, q);
    let d = next_pixel(m, x, y, q, p);
    let k = q + 1;
    let r0 = (m.v[y] + q / 8) % (SCREEN_HEIGHT as int);
    let c0 = (m.v[x] + q % 8) % (SCREEN_WIDTH as int);
    let color = sprite_bit(m.ram[m.i + q / 8], q % 8);
    lemma_sprite_bit_is_bit(m.ram[m.i + q / 8], q % 8);
    let lit = p.display[r0][c0];
    assert(lit == m.display[r0][c0]);
    let collided: u8 = if lit { 1 } else { 0 };
    let pf = p.v[FLAG as int];
    assert(d.v[FLAG as int] == pf | (color & collided));
    let hit_before = sprite_hits_lit(m, x, y, q);
    let hit_now = sprite_hits_lit(m, x, y, k);
    if hit_before {
        let (r1, c1) = choose|r: int, c: int|
            0 <= r < SCREEN_HEIGHT && 0 <= c < SCREEN_WIDTH && #[trigger] sprite_flips(m, x, y, q, r, c)
                && m.display[r][c];
        assert(sprite_flips(m, x, y, k, r1, c1));
    }
    if color != 0 && lit {
        assert(sprite_flips(m, x, y, k, r0, c0));
    }
    if hit_now {
        let (r1, c1) = choose|r: int, c: int|
            0 <= r < SCREEN_HEIGHT && 0 <= c < SCREEN_WIDTH && #[trigger] sprite_flips(m, x, y, k, r, c)
                && m.display[r][c];
        if !(r1 == r0 && c1 == c0 && color != 0) {
            assert(sprite_flips(m, x, y, q, r1, c1));
        }
    }
    assert(hit_now == (hit_before || (color != 0 && lit)));
    assert(pf | (color & collided) == (if pf == 1 || (color == 1 && collided == 1) { 1u8 } else { 0u8 }))
        by (bit_vector)
        requires
            pf <= 1,
            color <= 1,
            collided <= 1,
    ;
}

/// With `x, y != F`, drawing the first `rows` rows and `b` bits of a sprite
/// flips exactly the pixels that `sprite_flips` names, and leaves `VF` at 1
/// exactly when one of them was lit before (starting from `VF == 0`).
pub proof fn lemma_partial_draw_flips(m: Machine, x: int, y: int, rows: nat, b: nat)
    requires
        m.wf(),
        0 <= x < 16,
        0 <= y < 16,
        x != FLAG,
        y != FLAG,
        rows < 16,
        b <= 8,
        m.v[FLAG as int] == 0,
    ensures
        flips_so_far(m, x, y, (8 * rows + b) as int, partial_draw(m, x, y, rows, b)),
        partial_draw(m, x, y, rows, b).v[FLAG as int] == (if sprite_hits_lit(m, x, y, (8 * rows + b) as int) {
            1u8
        } else {
            0u8
        }),
    decreases rows, b,
{
    let d = partial_draw(m, x, y, rows, b);
    lemma_draw_rows_frame(m, x, y, rows);
    if b == 0 {
        if rows == 0 {
            assert(!sprite_hits_lit(m, x, y, 0));
        } else {
            lemma_partial_draw_flips(m, x, y, (rows - 1) as nat, 8);
            assert(d == partial_draw(m, x, y, (rows - 1) as nat, 8));
        }
    } else {
        let q: int = 8 * rows + b - 1;
        lemma_partial_draw_flips(m, x, y, rows, (b - 1) as nat);
        let pr = m.draw_rows(x, y, rows);
        let r0 = (pr.v[y] + rows) % (SCREEN_HEIGHT as int);
        lemma_draw_row_frame(pr, x, r0, rows as int, (b - 1) as nat);
        let p = partial_draw(m, x, y, rows, (b - 1) as nat);
        lemma_fundamental_div_mod_converse(q, 8, rows as int, b - 1);
        assert(d == next_pixel(m, x, y, q, p));
        lemma_pixel_display(m, x, y, q, p);
        lemma_pixel_flag(m, x, y, q, p);
    }
}

/// Every instruction other than `CXKK` ignores the random byte: a step is a
/// function of the machine state alone.
pub proof fn law_step_ignores_random_byte(m: Machine, r1: u8, r2: u8)
    requires
        m.can_step(),
        !(m.current().unwrap() is Random),
    ensures
        m.step(r1) == m.step(r2),
{
}

/// A step keeps the sizes of memory, display, stack and registers; it never
/// touches the sound timer; only `FX33` and `FX55` write memory, only `00E0`
/// and `DXYN` change the display, only `FX07`/`FX15` set the delay timer, and
/// only `ANNN`, `FX29` and `FX1E` move the index register.
pub proof fn law_step_frame(m: Machine, rnd: u8)
    requires
        m.can_step(),
    ensures
        m.step(rnd).wf(),
        m.step(rnd).soundtime == m.soundtime,
        !(m.current().unwrap() is Bcd) && !(m.current().unwrap() is StoreRegs) ==> m.step(rnd).ram
            == m.ram,
        !(m.current().unwrap() is Clear) && !(m.current().unwrap() is Draw) ==> m.step(rnd).display
            == m.display,
        !(m.current().unwrap() is SetDelay) ==> m.step(rnd).delaytime == m.delaytime,
        !(m.current().unwrap() is LoadIndex) && !(m.current().unwrap() is FontChar) && !(
        m.current().unwrap() is AddIndex) ==> m.step(rnd).i == m.i,
{
    let s = m.skip();
    let ins = m.current().unwrap();
    let d = m.step(rnd);
    match ins {
        Instruction::Draw { x, y, n } => {
            lemma_draw_rows_frame(s.with_v(FLAG as int, 0), x as int, y as int, n as nat);
        },
        Instruction::Bcd { .. } | Instruction::StoreRegs { .. } => {
            assert(d.ram.len() == RAM_SIZE);
        },
        Instruction::LoadRegs { x } => {
            assert(d.v.len() == 16);
        },
        _ => {},
    }
}

/// `DXYN` with `x, y != F` XORs the sprite onto the display: a pixel changes
/// exactly when the sprite covers it with a set bit, and `VF` ends at 1
/// exactly when one of the pixels it turns over was lit.
pub proof fn law_draw_xor(m: Machine, x: u8, y: u8, n: u8, rnd: u8)
    requires
        m.can_execute(Instruction::Draw { x, y, n }),
        x != FLAG,
        y != FLAG,
    ensures
        forall|r: int, c: int|
            0 <= r < SCREEN_HEIGHT && 0 <= c < SCREEN_WIDTH ==> #[trigger] m.execute(
                Instruction::Draw { x, y, n },
                rnd,
            ).display[r][c] == (m.display[r][c] != sprite_flips(m, x as int, y as int, 8 * n, r, c)),
        m.execute(Instruction::Draw { x, y, n }, rnd).v[FLAG as int] == (if sprite_hits_lit(
            m,
            x as int,
            y as int,
            8 * n,
        ) { 1u8 } else { 0u8 }),
{
    let m0 = m.with_v(FLAG as int, 0);
    let k = 8 * n;
    lemma_partial_draw_flips(m0, x as int, y as int, n as nat, 0);
    assert forall|r: int, c: int| #[trigger]
        sprite_flips(m0, x as int, y as int, k, r, c) == sprite_flips(m, x as int, y as int, k, r, c) by {}
    if sprite_hits_lit(m0, x as int, y as int, k) {
        let (r, c) = choose|r: int, c: int|
            0 <= r < SCREEN_HEIGHT && 0 <= c < SCREEN_WIDTH && #[trigger] sprite_flips(m0, x as int, y as int, k, r, c)
                && m0.display[r][c];
        assert(sprite_flips(m, x as int, y as int, k, r, c));
    }
    if sprite_hits_lit(m, x as int, y as int, k) {
        let (r, c) = choose|r: int, c: int|
            0 <= r < SCREEN_HEIGHT && 0 <= c < SCREEN_WIDTH && #[trigger] sprite_flips(m, x as int, y as int, k, r, c)
                && m.display[r][c];
        assert(sprite_flips(m0, x as int, y as int, k, r, c));
    }
}

/// Drawing the same sprite twice at the same place (`x, y != F`) leaves the
/// display as it was.
pub proof fn law_draw_twice_restores(m: Machine, x: u8, y: u8, n: u8, r1: u8, r2: u8)
    requires
        m.can_execute(Instruction::Draw { x, y, n }),
        x != FLAG,
        y != FLAG,
    ensures
        m.execute(Instruction::Draw { x, y, n }, r1).can_execute(Instruction::Draw { x, y, n }),
        m.execute(Instruction::Draw { x, y, n }, r1).execute(Instruction::Draw { x, y, n }, r2).display
            == m.display,
{
    let ins = Instruction::Draw { x, y, n };
    let d1 = m.execute(ins, r1);
    lemma_draw_rows_frame(m.with_v(FLAG as int, 0), x as int, y as int, n as nat);
    law_draw_xor(m, x, y, n, r1);
    law_draw_xor(d1, x, y, n, r2);
    let d2 = d1.execute(ins, r2);
    lemma_draw_rows_frame(d1.with_v(FLAG as int, 0), x as int, y as int, n as nat);
    assert forall|r: int, c: int| #[trigger]
        sprite_flips(d1, x as int, y as int, 8 * n, r, c) == sprite_flips(
            m,
            x as int,
            y as int,
            8 * n,
            r,
            c,
        ) by {}
    assert forall|r: int| 0 <= r < SCREEN_HEIGHT implies #[trigger] d2.display[r] =~= m.display[r] by {
        assert forall|c: int| 0 <= c < SCREEN_WIDTH implies d2.display[r][c] == m.display[r][c] by {
            assert(d2.display[r][c] == (d1.display[r][c] != sprite_flips(d1, x as int, y as int, 8 * n, r, c)));
        }
    }
    assert(d2.display =~= m.display);
}

/// Loading `V0..=Vx` right after storing them at the same address gives the
/// machine back unchanged: memory reads back what was written.
pub proof fn law_load_after_store(m: Machine, x: u8, r1: u8, r2: u8)
    requires
        m.can_execute(Instruction::StoreRegs { x }),
    ensures
        m.execute(Instruction::StoreRegs { x }, r1).can_execute(Instruction::LoadRegs { x }),
        m.execute(Instruction::StoreRegs { x }, r1).execute(Instruction::LoadRegs { x }, r2)
            == m.execute(Instruction::StoreRegs { x }, r1),
{
    let s = m.execute(Instruction::StoreRegs { x }, r1);
    let l = s.execute(Instruction::LoadRegs { x }, r2);
    assert(s.ram.len() == RAM_SIZE);
    assert(l.v =~= s.v);
    assert(l == s);
}

/// `FX33` writes the decimal digits of `Vx`: hundreds, tens and units, which
/// read back as `Vx`.
pub proof fn law_bcd_spells_register(m: Machine, x: u8, rnd: u8)
    requires
        m.can_execute(Instruction::Bcd { x }),
    ensures
        ({
            let d = m.execute(Instruction::Bcd { x }, rnd);
            let i = m.i as int;
            &&& d.ram[i] <= 2
            &&& d.ram[i + 1] < 10
            &&& d.ram[i + 2] < 10
            &&& 100 * d.ram[i] + 10 * d.ram[i + 1] + d.ram[i + 2] == m.v[x as int]
        }),
{
}

/// `8XY4` for `x != F`: the new `Vx` and the carry in `VF` together hold the
/// full sum `Vx + Vy`.
pub proof fn law_add_carry(m: Machine, x: u8, y: u8, rnd: u8)
    requires
        m.can_execute(Instruction::AddReg { x, y }),
        x != FLAG,
    ensures
        ({
            let d = m.execute(Instruction::AddReg { x, y }, rnd);
            &&& d.v[FLAG as int] <= 1
            &&& d.v[x as int] + 256 * d.v[FLAG as int] == m.v[x as int] + m.v[y as int]
        }),
{
}

/// `8XY5` for `x, y != F`: `Vx` becomes `Vx - Vy` modulo 256, and `VF` is 1
/// exactly when `Vx > Vy`.
pub proof fn law_sub_borrow(m: Machine, x: u8, y: u8, rnd: u8)
    requires
        m.can_execute(Instruction::SubReg { x, y }),
        x != FLAG,
        y != FLAG,
    ensures
        ({
            let d = m.execute(Instruction::SubReg { x, y }, rnd);
            &&& d.v[x as int] == (m.v[x as int] - m.v[y as int]) % 256
            &&& d.v[FLAG as int] == (if m.v[x as int] > m.v[y as int] { 1int } else { 0 })
        }),
{
}

/// `8XY6` for `x != F`: the bit shifted out lands in `VF`, so twice the new
/// `Vx` plus `VF` is the old `Vx`.
pub proof fn law_shift_right(m: Machine, x: u8, rnd: u8)
    requires
        m.can_execute(Instruction::ShiftRight { x }),
        x != FLAG,
    ensures
        ({
            let d = m.execute(Instruction::ShiftRight { x }, rnd);
            &&& d.v[FLAG as int] <= 1
            &&& 2 * d.v[x as int] + d.v[FLAG as int] == m.v[x as int]
        }),
{
}

/// `8XYE` for `x != F`: the bit shifted out lands in `VF`, so the new `Vx`
/// plus 256 times `VF` is twice the old `Vx`.
pub proof fn law_shift_left(m: Machine, x: u8, rnd: u8)
    requires
        m.can_execute(Instruction::ShiftLeft { x }),
        x != FLAG,
    ensures
        ({
            let d = m.execute(Instruction::ShiftLeft { x }, rnd);
            &&& d.v[FLAG as int] <= 1
            &&& d.v[x as int] + 256 * d.v[FLAG as int] == 2 * m.v[x as int]
        }),
{
}

/// Each of the sixteen hex keys is shown on exactly one cell of the 4x4 keypad.
pub proof fn law_keypad_covers_each_key_once(k: int)
    requires
        0 <= k < 16,
    ensures
        exists|col: int, row: int| 0 <= col < 4 && 0 <= row < 4 && #[trigger] keypad_layout(col, row) == k,
        forall|c1: int, r1: int, c2: int, r2: int|
            0 <= c1 < 4 && 0 <= r1 < 4 && 0 <= c2 < 4 && 0 <= r2 < 4 && #[trigger] keypad_layout(c1, r1) == k
                && #[trigger] keypad_layout(c2, r2) == k ==> c1 == c2 && r1 == r2,
{
    let cells: Seq<(int, int)> = seq![
        (1, 3), (0, 0), (1, 0), (2, 0), (0, 1), (1, 1), (2, 1), (0, 2),
        (1, 2), (2, 2), (0, 3), (2, 3), (3, 0), (3, 1), (3, 2), (3, 3),
    ];
    assert(keypad_layout(cells[k].0, cells[k].1) == k);
}

/// After `init`, the font sprites occupy `FONT_START..FONT_START + 80`, the
/// program occupies `PROGRAM_START..PROGRAM_START + len`, and every other byte
/// of memory is as it was.
pub proof fn law_init_layout(ram: Seq<u8>, code: Seq<u8>)
    requires
        ram.len() == RAM_SIZE,
        PROGRAM_START + code.len() <= RAM_SIZE,
    ensures
        ({
            let r = write_block(write_block(ram, FONT_START as int, FONT_MEM@), PROGRAM_START as int, code);
            &&& r.len() == RAM_SIZE
            &&& r.subrange(FONT_START as int, FONT_START + 80) == FONT_MEM@
            &&& r.subrange(PROGRAM_START as int, PROGRAM_START + code.len()) == code
            &&& forall|a: int|
                0 <= a < RAM_SIZE && !(FONT_START <= a < FONT_START + 80) && !(PROGRAM_START <= a
                    < PROGRAM_START + code.len()) ==> #[trigger] r[a] == ram[a]
        }),
{
    let r = write_block(write_block(ram, FONT_START as int, FONT_MEM@), PROGRAM_START as int, code);
    assert(r.subrange(FONT_START as int, FONT_START + 80) =~= FONT_MEM@);
    assert(r.subrange(PROGRAM_START as int, PROGRAM_START + code.len()) =~= code);
}

} // verus!
