use chip8::cpu::cpu;
use chip8::instruction::{decode, Instruction};

fn loaded(code: &[u8]) -> cpu {
    let mut c = cpu::new();
    c.init(code);
    c
}

fn run(c: &mut cpu, steps: usize) {
    for _ in 0..steps {
        assert!(c.can_step());
        c.step();
    }
}

#[test]
fn decode_table() {
    assert_eq!(decode(0x00E0), Some(Instruction::Clear));
    assert_eq!(decode(0x00EE), Some(Instruction::Return));
    assert_eq!(decode(0x0123), None);
    assert_eq!(decode(0x1234), Some(Instruction::Jump { nnn: 0x234 }));
    assert_eq!(decode(0x2ABC), Some(Instruction::Call { nnn: 0xABC }));
    assert_eq!(decode(0x3A42), Some(Instruction::SkipEqImm { x: 0xA, kk: 0x42 }));
    assert_eq!(decode(0x5AB3), Some(Instruction::SkipEqReg { x: 0xA, y: 0xB }));
    assert_eq!(decode(0x8AB4), Some(Instruction::AddReg { x: 0xA, y: 0xB }));
    assert_eq!(decode(0x8ABE), Some(Instruction::ShiftLeft { x: 0xA }));
    assert_eq!(decode(0x8AB8), None);
    assert_eq!(decode(0x9AB0), Some(Instruction::SkipNeReg { x: 0xA, y: 0xB }));
    assert_eq!(decode(0x9AB1), None);
    assert_eq!(decode(0xD125), Some(Instruction::Draw { x: 1, y: 2, n: 5 }));
    assert_eq!(decode(0xE3A1), Some(Instruction::SkipNotPressed { x: 3 }));
    assert_eq!(decode(0xE39E), None);
    assert_eq!(decode(0xF329), Some(Instruction::FontChar { x: 3 }));
    assert_eq!(decode(0xF307), Some(Instruction::SetDelay { x: 3 }));
    assert_eq!(decode(0xF315), Some(Instruction::SetDelay { x: 3 }));
    assert_eq!(decode(0xF318), None);
    assert_eq!(decode(0xF30A), Some(Instruction::WaitKey { x: 3 }));
}

#[test]
fn fetch_is_big_endian() {
    let c = loaded(&[0x12, 0x34]);
    assert_eq!(c.fetch(), 0x1234);
}

#[test]
fn load_and_add_immediate() {
    let mut c = loaded(&[0x6A, 0x42, 0x60, 0xFF, 0x70, 0x02]);
    run(&mut c, 3);
    assert_eq!(c.v[0xA], 0x42);
    assert_eq!(c.v[0], 0x01);
    assert_eq!(c.v[0xF], 0);
    assert_eq!(c.pc, 0x206);
}

#[test]
fn add_with_carry() {
    let mut c = loaded(&[0x61, 200, 0x62, 100, 0x81, 0x24]);
    run(&mut c, 3);
    assert_eq!(c.v[1], 44);
    assert_eq!(c.v[0xF], 1);
    assert_eq!(c.v[1] as u16 + 256 * c.v[0xF] as u16, 300);
}

#[test]
fn add_without_carry() {
    let mut c = loaded(&[0x61, 20, 0x62, 100, 0x81, 0x24]);
    run(&mut c, 3);
    assert_eq!(c.v[1], 120);
    assert_eq!(c.v[0xF], 0);
}

#[test]
fn subtract_and_borrow() {
    let mut c = loaded(&[0x61, 5, 0x62, 3, 0x81, 0x25]);
    run(&mut c, 3);
    assert_eq!(c.v[1], 2);
    assert_eq!(c.v[0xF], 1);

    let mut c = loaded(&[0x61, 3, 0x62, 5, 0x81, 0x25]);
    run(&mut c, 3);
    assert_eq!(c.v[1], 254);
    assert_eq!(c.v[0xF], 0);

    let mut c = loaded(&[0x61, 4, 0x62, 4, 0x81, 0x25]);
    run(&mut c, 3);
    assert_eq!(c.v[1], 0);
    assert_eq!(c.v[0xF], 0);
}

#[test]
fn subtract_reversed() {
    let mut c = loaded(&[0x61, 3, 0x62, 5, 0x81, 0x27]);
    run(&mut c, 3);
    assert_eq!(c.v[1], 2);
    assert_eq!(c.v[0xF], 1);
}

#[test]
fn logic_operations() {
    let mut c = loaded(&[
        0x61, 0b1100, 0x62, 0b1010, 0x83, 0x10, 0x83, 0x21, 0x84, 0x10, 0x84, 0x22, 0x85, 0x10,
        0x85, 0x23,
    ]);
    run(&mut c, 8);
    assert_eq!(c.v[3], 0b1110);
    assert_eq!(c.v[4], 0b1000);
    assert_eq!(c.v[5], 0b0110);
}

#[test]
fn shifts_report_the_lost_bit() {
    let mut c = loaded(&[0x61, 5, 0x81, 0x06]);
    run(&mut c, 2);
    assert_eq!(c.v[1], 2);
    assert_eq!(c.v[0xF], 1);

    let mut c = loaded(&[0x61, 0x81, 0x81, 0x0E]);
    run(&mut c, 2);
    assert_eq!(c.v[1], 0x02);
    assert_eq!(c.v[0xF], 1);
    assert_eq!(c.v[1] as u16 + 256 * c.v[0xF] as u16, 2 * 0x81);
}

#[test]
fn flag_register_as_operand() {
    // 8FF4 with VF = 0x90: VF first takes the sum, then the carry.
    let mut c = loaded(&[0x6F, 0x90, 0x8F, 0xF4]);
    run(&mut c, 2);
    assert_eq!(c.v[0xF], 1);
}

#[test]
fn skips() {
    let mut c = loaded(&[0x60, 7, 0x30, 7]);
    run(&mut c, 2);
    assert_eq!(c.pc, 0x206);

    let mut c = loaded(&[0x60, 7, 0x30, 8]);
    run(&mut c, 2);
    assert_eq!(c.pc, 0x204);

    let mut c = loaded(&[0x60, 7, 0x40, 8]);
    run(&mut c, 2);
    assert_eq!(c.pc, 0x206);

    let mut c = loaded(&[0x60, 7, 0x61, 7, 0x50, 0x10]);
    run(&mut c, 3);
    assert_eq!(c.pc, 0x208);

    let mut c = loaded(&[0x60, 7, 0x61, 7, 0x90, 0x10]);
    run(&mut c, 3);
    assert_eq!(c.pc, 0x206);

    let mut c = loaded(&[0xE0, 0xA1]);
    run(&mut c, 1);
    assert_eq!(c.pc, 0x204);
}

#[test]
fn jumps() {
    let mut c = loaded(&[0x13, 0x45]);
    run(&mut c, 1);
    assert_eq!(c.pc, 0x345);

    let mut c = loaded(&[0x60, 0x10, 0xB3, 0x00]);
    run(&mut c, 2);
    assert_eq!(c.pc, 0x310);
}

#[test]
fn call_pushes_without_jumping() {
    let mut c = loaded(&[0x23, 0x00]);
    run(&mut c, 1);
    assert_eq!(c.stack[0], 0x204);
    assert_eq!(c.sc, 1);
    assert_eq!(c.pc, 0x202);
}

#[test]
fn return_reads_the_current_slot() {
    let mut c = loaded(&[0x00, 0xEE]);
    c.sc = 1;
    c.stack[1] = 0x300;
    run(&mut c, 1);
    assert_eq!(c.pc, 0x300);
    assert_eq!(c.sc, 0);
}

#[test]
fn index_instructions() {
    let mut c = loaded(&[0xA1, 0x23]);
    run(&mut c, 1);
    assert_eq!(c.i, 0x123);

    let mut c = loaded(&[0x60, 3, 0xF0, 0x29]);
    run(&mut c, 2);
    assert_eq!(c.i, 15);

    let mut c = loaded(&[0xAE, 0xFF, 0x60, 2, 0xF0, 0x1E]);
    run(&mut c, 3);
    assert_eq!(c.i, 0xF01);
    assert_eq!(c.v[0xF], 1);

    let mut c = loaded(&[0xAE, 0xFE, 0x60, 2, 0xF0, 0x1E]);
    run(&mut c, 3);
    assert_eq!(c.i, 0xF00);
    assert_eq!(c.v[0xF], 0);
}

#[test]
fn bcd_digits() {
    let mut c = loaded(&[0xA3, 0x00, 0x60, 234, 0xF0, 0x33]);
    run(&mut c, 3);
    assert_eq!(&c.ram[0x300..0x303], &[2, 3, 4]);

    let mut c = loaded(&[0xA3, 0x00, 0x60, 7, 0xF0, 0x33]);
    run(&mut c, 3);
    assert_eq!(&c.ram[0x300..0x303], &[0, 0, 7]);
}

#[test]
fn store_then_load_registers() {
    let mut c = loaded(&[
        0xA3, 0x00, 0x60, 1, 0x61, 2, 0x62, 3, 0x63, 4, 0xF2, 0x55, 0x60, 9, 0x61, 9, 0x62, 9,
        0xF2, 0x65,
    ]);
    run(&mut c, 10);
    assert_eq!(&c.ram[0x300..0x304], &[1, 2, 3, 0]);
    assert_eq!(&c.v[0..4], &[1, 2, 3, 4]);
    assert_eq!(c.i, 0x300);
}

#[test]
fn timers() {
    let mut c = loaded(&[0x60, 9, 0xF0, 0x15, 0x61, 4, 0xF1, 0x07]);
    run(&mut c, 2);
    assert_eq!(c.delaytime, 9);
    run(&mut c, 2);
    assert_eq!(c.delaytime, 4);
    assert_eq!(c.v[0], 9);
    assert_eq!(c.soundtime, 0);
}

#[test]
fn wait_key_does_nothing() {
    let mut c = loaded(&[0xF0, 0x0A]);
    run(&mut c, 1);
    assert_eq!(c.pc, 0x202);
    assert_eq!(c.v, [0; 16]);
}

#[test]
fn draw_digit_zero_then_erase_it() {
    // I = 0x50 (sprite "0"), draw at (0, 0), then again.
    let mut c = loaded(&[0xA0, 0x50, 0xD0, 0x05, 0xD0, 0x05]);
    run(&mut c, 2);
    let expect: [[bool; 4]; 5] = [
        [true, true, true, true],
        [true, false, false, true],
        [true, false, false, true],
        [true, false, false, true],
        [true, true, true, true],
    ];
    for r in 0..5 {
        for col in 0..4 {
            assert_eq!(c.display[r][col], expect[r][col]);
        }
        assert!(!c.display[r][4]);
    }
    assert_eq!(c.v[0xF], 0);
    run(&mut c, 1);
    assert!(c.display.iter().all(|row| row.iter().all(|&p| !p)));
    assert_eq!(c.v[0xF], 1);
}

#[test]
fn draw_wraps_around_the_edges() {
    // V0 = 62, V1 = 31, sprite "0" wraps right and down.
    let mut c = loaded(&[0x60, 62, 0x61, 31, 0xA0, 0x50, 0xD0, 0x15]);
    run(&mut c, 4);
    assert!(c.display[31][62]);
    assert!(c.display[31][63]);
    assert!(c.display[31][0]);
    assert!(c.display[31][1]);
    assert!(c.display[0][62]);
    assert!(!c.display[0][63]);
}

#[test]
fn clear_screen() {
    let mut c = loaded(&[0xA0, 0x50, 0xD0, 0x05, 0x00, 0xE0]);
    run(&mut c, 2);
    assert!(c.display[0][0]);
    run(&mut c, 1);
    assert!(c.display.iter().all(|row| row.iter().all(|&p| !p)));
}

#[test]
fn random_is_masked() {
    let mut c = loaded(&[0xC3, 0x00, 0xC4, 0x0F]);
    run(&mut c, 2);
    assert_eq!(c.v[3], 0);
    assert!(c.v[4] < 16);
}

#[test]
fn step_with_given_random_byte() {
    let mut c = loaded(&[0xC0, 0xF0]);
    c.step_with(0xAB);
    assert_eq!(c.v[0], 0xA0);
    assert_eq!(c.pc, 0x202);
}

#[test]
fn execute_a_decoded_instruction() {
    let mut c = cpu::new();
    c.v[2] = 5;
    c.execute(Instruction::Move { x: 1, y: 2 }, 0);
    assert_eq!(c.v[1], 5);
    assert_eq!(c.pc, 0x200);
}

#[test]
fn unsafe_steps_are_refused() {
    // unknown opcode
    let c = loaded(&[0x01, 0x23]);
    assert!(!c.can_step());
    // return with an empty stack
    let c = loaded(&[0x00, 0xEE]);
    assert!(!c.can_step());
    // call with a full stack
    let mut c = loaded(&[0x23, 0x00]);
    c.sc = 16;
    assert!(!c.can_step());
    // font address of a register too large for `Vx * 5`
    let mut c = loaded(&[0xF0, 0x29]);
    c.v[0] = 52;
    assert!(!c.can_step());
    c.v[0] = 51;
    assert!(c.can_step());
    // program counter at the last byte of memory
    let mut c = loaded(&[]);
    c.pc = 0xFFF;
    assert!(!c.can_step());
    // sprite read past the end of memory
    let mut c = loaded(&[0xDF, 0xF2]);
    c.i = 0xFFF;
    assert!(!c.can_step());
    c.i = 0xFFE;
    assert!(c.can_step());
    // register store past the end of memory
    let mut c = loaded(&[0xF1, 0x55]);
    c.i = 0xFFF;
    assert!(!c.can_step());
    // index overflowing sixteen bits
    let mut c = loaded(&[0xF0, 0x1E]);
    c.i = 0xFFFF;
    c.v[0] = 1;
    assert!(!c.can_step());
    // BCD past the end of memory
    let mut c = loaded(&[0xF0, 0x33]);
    c.i = 0xFFE;
    assert!(!c.can_step());
}

#[test]
fn draw_with_flag_register_as_column() {
    // DF01: the column comes from VF, which a collision changes mid-row.
    let mut c = loaded(&[0xA3, 0x00, 0xDF, 0x01]);
    c.ram[0x300] = 0xF0;
    c.display[0][1] = true;
    run(&mut c, 2);
    let row: Vec<bool> = c.display[0][0..9].to_vec();
    assert_eq!(row, vec![true, false, false, true, true, false, false, false, false]);
    assert_eq!(c.v[0xF], 1);
}

#[test]
fn draw_with_flag_register_as_row() {
    // D0F2: each sprite row is placed from VF as it is when the row starts.
    let mut c = loaded(&[0xA3, 0x00, 0xD0, 0xF2]);
    c.ram[0x300] = 0x80;
    c.ram[0x301] = 0x80;
    c.display[0][0] = true;
    run(&mut c, 2);
    assert!(!c.display[0][0]);
    assert!(!c.display[1][0]);
    assert!(c.display[2][0]);
    assert_eq!(c.v[0xF], 1);
}

#[test]
fn only_random_instruction_uses_the_random_byte() {
    let program = [0x61, 0x07, 0x81, 0x14];
    let mut a = loaded(&program);
    let mut b = loaded(&program);
    for _ in 0..2 {
        a.step_with(0x00);
        b.step_with(0xFF);
    }
    assert_eq!(a.v, b.v);
    assert_eq!(a.pc, b.pc);
    assert_eq!(a.ram, b.ram);
    assert_eq!(a.display, b.display);

    let mut a = loaded(&[0xC1, 0xFF]);
    let mut b = loaded(&[0xC1, 0xFF]);
    a.step_with(0x12);
    b.step_with(0x34);
    assert_eq!(a.v[1], 0x12);
    assert_eq!(b.v[1], 0x34);
}
