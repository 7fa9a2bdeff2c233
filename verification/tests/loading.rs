use chip8::cpu::cpu;
use chip8::font::FONT_MEM;

#[test]
fn font() {
    let mut cpu = cpu::new();

    cpu.inject_font(FONT_MEM);

    //Check if font is loaded and in right spot
    assert_eq!(cpu.ram[0x50..0xA0], FONT_MEM);
}

#[test]
fn font_init() {
    let mut cpu = cpu::new();

    cpu.init(&[0x60, 0x90, 0x40, 0x20, 0x00]);
    //Check if font is loaded and in right spot
    assert_eq!(cpu.ram[0x50..0xA0], FONT_MEM);
}

#[test]
fn code() {
    let code: &[u8; 5] = &[0x60, 0x90, 0x40, 0x20, 0x00];

    let mut cpu = cpu::new();

    cpu.inject_code(&[0x60, 0x90, 0x40, 0x20, 0x00]);
    //Check if font is loaded and in right spot
    assert_eq!(&cpu.ram[0x200..0x205], code);
}

#[test]
fn code_init() {
    let code: &[u8; 5] = &[0x60, 0x90, 0x40, 0x20, 0x00];

    let mut cpu = cpu::new();

    cpu.init(&[0x60, 0x90, 0x40, 0x20, 0x00]);
    //Check if font is loaded and in right spot
    assert_eq!(&cpu.ram[0x200..0x205], code);
}

#[test]
fn new_is_powered_on() {
    let c = cpu::new();
    assert_eq!(c.pc, 0x200);
    assert_eq!(c.i, 0);
    assert_eq!(c.sc, 0);
    assert_eq!(c.delaytime, 0);
    assert_eq!(c.soundtime, 0);
    assert!(c.ram.iter().all(|&b| b == 0));
    assert!(c.v.iter().all(|&b| b == 0));
    assert!(c.stack.iter().all(|&s| s == 0));
    assert!(c.display.iter().all(|row| row.iter().all(|&p| !p)));
}

#[test]
fn init_leaves_other_memory_alone() {
    let mut c = cpu::new();
    c.ram[0x10] = 7;
    c.ram[0x300] = 9;
    c.init(&[1, 2, 3]);
    assert_eq!(c.ram[0x10], 7);
    assert_eq!(c.ram[0x300], 9);
    assert_eq!(c.ram[0x4F], 0);
    assert_eq!(c.ram[0xA0], 0);
    assert_eq!(&c.ram[0x200..0x203], &[1, 2, 3]);
    assert_eq!(c.ram[0x203], 0);
    assert_eq!(c.pc, 0x200);
}

#[test]
fn inject_code_fills_memory_to_the_end() {
    let code = vec![0xAB; 4096 - 0x200];
    let mut c = cpu::new();
    c.inject_code(&code);
    assert_eq!(c.ram[0x1FF], 0);
    assert!(c.ram[0x200..].iter().all(|&b| b == 0xAB));
}

#[test]
fn inject_empty_code_changes_nothing() {
    let mut c = cpu::new();
    c.inject_code(&[]);
    assert!(c.ram.iter().all(|&b| b == 0));
}
