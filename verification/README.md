# chip8_emulator

A CHIP-8 interpreter whose core is verified with Verus.

- `src/machine.rs` — the mathematical model of the interpreter (`Machine`) and
  the meaning of every instruction (`execute_spec`, `step_spec`), together with
  the conditions under which a step stays inside the machine (`step_defined`).
- `src/cpu.rs` — the executable interpreter `Chip8`; each instruction is proved
  to do what `machine.rs` says.
- `src/display.rs`, `src/keypad.rs`, `src/font.rs` — screen, keypad and the
  built-in hexadecimal font.
- `src/laws.rs` — properties across instructions: the step invariant, call and
  return, the key-wait protocol, carry and borrow flags, sprite XOR and
  clipping, BCD, register save/restore, timers.
- `src/frame.rs` — one video frame (`run_frame`: keys in, `speed` instructions,
  one timer tick, end of the draw wait) and the scaled frame buffer (`render`).
- `src/rng.rs` — the one call into `rand`, the byte that `CXKK` masks.
- `app/main.rs` — the window, keyboard and command line (`minifb`, `clap`): it reads the
  keys, calls `run_frame` and shows what `render` returns.
