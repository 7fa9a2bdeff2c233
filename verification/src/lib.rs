//! A CHIP-8 interpreter core: memory, registers, display and the
//! fetch/decode/execute cycle, with the keypad state that a front end fills.

pub mod font;
pub mod instruction;
pub mod machine;
pub mod cpu;
pub mod input;
pub mod laws;
pub mod step_laws;
