# chip8

The core of a CHIP-8 interpreter, verified with Verus: 4 KiB of memory, a
64x32 monochrome display, sixteen registers, the index register, a
sixteen-slot return stack and the timers, with the decoder and the
fetch/decode/execute step.

- `src/machine.rs` models the state as mathematical values (`Machine`) and
  defines what each instruction does (`Machine::execute`) and when a step is
  safe (`Machine::can_step`).
- `src/instruction.rs` holds the decoding table.
- `src/cpu.rs` is the executable interpreter; its view is a `Machine`.
- `src/input.rs` holds the keypad state.
- `src/laws.rs` proves properties that span instructions and steps.
- `app/main.rs` is the window, the keyboard and the ROM loading, built on
  macroquad.
