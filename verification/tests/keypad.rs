use chip8::input::input;

#[test]
fn new_keypad_is_released() {
    let k = input::new();
    assert!(!k.num_0 && !k.num_1 && !k.num_9 && !k.num_a && !k.num_f);
    assert!(!k.if_key_press());
}

#[test]
fn update_records_keys_by_hex_value() {
    let mut k = input::new();
    let mut down = [false; 16];
    down[0x0] = true;
    down[0x7] = true;
    down[0xC] = true;
    k.update(down);
    assert!(k.num_0);
    assert!(k.num_7);
    assert!(k.num_c);
    assert!(!k.num_1);
    assert!(!k.num_f);
    assert!(!k.if_key_press());
}

#[test]
fn reset_releases_all_keys() {
    let mut k = input::new();
    k.update([true; 16]);
    assert!(k.num_5 && k.num_e);
    k.reset();
    assert!(!k.num_1 && !k.num_2 && !k.num_3 && !k.num_4 && !k.num_5 && !k.num_6);
    assert!(!k.num_7 && !k.num_8 && !k.num_9 && !k.num_0 && !k.num_a && !k.num_b);
    assert!(!k.num_c && !k.num_d && !k.num_e && !k.num_f);
}

#[test]
fn keypad_layout_cells() {
    let layout: [[u8; 4]; 4] = [
        [0x1, 0x2, 0x3, 0xC],
        [0x4, 0x5, 0x6, 0xD],
        [0x7, 0x8, 0x9, 0xE],
        [0xA, 0x0, 0xB, 0xF],
    ];
    for key in 0..16u8 {
        let mut down = [false; 16];
        down[key as usize] = true;
        let mut k = input::new();
        k.update(down);
        let mut hits = 0;
        for row in 0..4u8 {
            for col in 0..4u8 {
                let lit = k.keypad_cell(col, row);
                assert_eq!(lit, layout[row as usize][col as usize] == key);
                if lit {
                    hits += 1;
                }
            }
        }
        assert_eq!(hits, 1);
    }
}
