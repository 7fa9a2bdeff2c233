use vstd::prelude::*;

verus! {

/// Which of the sixteen hex keys `0`..`F` are held down.
#[allow(non_camel_case_types)]
#[derive(Debug, Copy, Clone)]
pub struct input {
    pub num_1: bool,
    pub num_2: bool,
    pub num_3: bool,
    pub num_4: bool,
    pub num_5: bool,
    pub num_6: bool,
    pub num_7: bool,
    pub num_8: bool,
    pub num_9: bool,
    pub num_0: bool,
    pub num_a: bool,
    pub num_b: bool,
    pub num_c: bool,
    pub num_d: bool,
    pub num_e: bool,
    pub num_f: bool,
}

/// The hex key shown in column `col` and row `row` of the 4x4 keypad:
/// `1 2 3 C / 4 5 6 D / 7 8 9 E / A 0 B F`.
pub open spec fn keypad_layout(col: int, row: int) -> int {
    let cell = 4 * row + col + 1;
    if cell == 1 {
        0x1
    } else if cell == 2 {
        0x2
    } else if cell == 3 {
        0x3
    } else if cell == 4 {
        0xC
    } else if cell == 5 {
        0x4
    } else if cell == 6 {
        0x5
    } else if cell == 7 {
        0x6
    } else if cell == 8 {
        0xD
    } else if cell == 9 {
        0x7
    } else if cell == 10 {
        0x8
    } else if cell == 11 {
        0x9
    } else if cell == 12 {
        0xE
    } else if cell == 13 {
        0xA
    } else if cell == 14 {
        0x0
    } else if cell == 15 {
        0xB
    } else {
        0xF
    }
}

impl input {
    /// Whether hex key `k` is held down.
    pub open spec fn key(self, k: int) -> bool {
        if k == 0x0 {
            self.num_0
        } else if k == 0x1 {
            self.num_1
        } else if k == 0x2 {
            self.num_2
        } else if k == 0x3 {
            self.num_3
        } else if k == 0x4 {
            self.num_4
        } else if k == 0x5 {
            self.num_5
        } else if k == 0x6 {
            self.num_6
        } else if k == 0x7 {
            self.num_7
        } else if k == 0x8 {
            self.num_8
        } else if k == 0x9 {
            self.num_9
        } else if k == 0xA {
            self.num_a
        } else if k == 0xB {
            self.num_b
        } else if k == 0xC {
            self.num_c
        } else if k == 0xD {
            self.num_d
        } else if k == 0xE {
            self.num_e
        } else {
            self.num_f
        }
    }

    /// No key is held down.
    pub open spec fn all_released(self) -> bool {
        forall|k: int| 0 <= k < 16 ==> !#[trigger] self.key(k)
    }

    /// A keypad with every key released.
    pub fn new() -> (r: input)
        ensures
            r.all_released(),
            !r.num_1,
            !r.num_2,
            !r.num_3,
            !r.num_4,
            !r.num_5,
            !r.num_6,
            !r.num_7,
            !r.num_8,
            !r.num_9,
            !r.num_0,
            !r.num_a,
            !r.num_b,
            !r.num_c,
            !r.num_d,
            !r.num_e,
            !r.num_f,
    {
        input {
            num_1: false,
            num_2: false,
            num_3: false,
            num_4: false,
            num_5: false,
            num_6: false,
            num_7: false,
            num_8: false,
            num_9: false,
            num_0: false,
            num_a: false,
            num_b: false,
            num_c: false,
            num_d: false,
            num_e: false,
            num_f: false,
        }
    }

    /// Answers `false`: no key press is ever reported.
    pub fn if_key_press(&self) -> (r: bool)
        ensures
            !r,
    {
        false
    }

    /// Records the keys held down now: `down[k]` for hex key `k`.
    pub fn update(&mut self, down: [bool; 16])
        ensures
            forall|k: int| 0 <= k < 16 ==> #[trigger] final(self).key(k) == down@[k],
            final(self).num_1 == down@[0x1],
            final(self).num_2 == down@[0x2],
            final(self).num_3 == down@[0x3],
            final(self).num_4 == down@[0x4],
            final(self).num_5 == down@[0x5],
            final(self).num_6 == down@[0x6],
            final(self).num_7 == down@[0x7],
            final(self).num_8 == down@[0x8],
            final(self).num_9 == down@[0x9],
            final(self).num_0 == down@[0x0],
            final(self).num_a == down@[0xA],
            final(self).num_b == down@[0xB],
            final(self).num_c == down@[0xC],
            final(self).num_d == down@[0xD],
            final(self).num_e == down@[0xE],
            final(self).num_f == down@[0xF],
    {
        *self = input {
            num_1: down[0x1],
            num_2: down[0x2],
            num_3: down[0x3],
            num_4: down[0x4],
            num_5: down[0x5],
            num_6: down[0x6],
            num_7: down[0x7],
            num_8: down[0x8],
            num_9: down[0x9],
            num_0: down[0x0],
            num_a: down[0xA],
            num_b: down[0xB],
            num_c: down[0xC],
            num_d: down[0xD],
            num_e: down[0xE],
            num_f: down[0xF],
        };
    }

    /// Releases every key.
    pub fn reset(&mut self)
        ensures
            final(self).all_released(),
            !final(self).num_1,
            !final(self).num_2,
            !final(self).num_3,
            !final(self).num_4,
            !final(self).num_5,
            !final(self).num_6,
            !final(self).num_7,
            !final(self).num_8,
            !final(self).num_9,
            !final(self).num_0,
            !final(self).num_a,
            !final(self).num_b,
            !final(self).num_c,
            !final(self).num_d,
            !final(self).num_e,
            !final(self).num_f,
    {
        self.num_1 = false;
        self.num_2 = false;
        self.num_3 = false;
        self.num_4 = false;
        self.num_5 = false;
        self.num_6 = false;
        self.num_7 = false;
        self.num_8 = false;
        self.num_9 = false;
        self.num_0 = false;
        self.num_a = false;
        self.num_b = false;
        self.num_c = false;
        self.num_d = false;
        self.num_e = false;
        self.num_f = false;
    }

    /// The state of the key shown in column `col`, row `row` of the keypad.
    pub fn keypad_cell(&self, col: u8, row: u8) -> (r: bool)
        requires
            col < 4,
            row < 4,
        ensures
            r == self.key(keypad_layout(col as int, row as int)),
    {
        match 4 * row + col + 1 {
            1 => self.num_1,
            2 => self.num_2,
            3 => self.num_3,
            4 => self.num_c,
            5 => self.num_4,
            6 => self.num_5,
            7 => self.num_6,
            8 => self.num_d,
            9 => self.num_7,
            10 => self.num_8,
            11 => self.num_9,
            12 => self.num_e,
            13 => self.num_a,
            14 => self.num_0,
            15 => self.num_b,
            16 => self.num_f,
            _ => false,
        }
    }
}

} // verus!
