# chip8

A CHIP-8 emulator core verified with Verus, and a small program around it.

- `src/model.rs` — the machine as a mathematical state (`Machine`), how an
  opcode is decoded, and `step`, the meaning of one emulation cycle.
- `src/chip8.rs` — the executable machine `Chip8`: power-on state, loading a
  ROM, one emulation cycle (with a given random byte, or a fresh one), a check
  that the next cycle is defined, and accessors.
- `src/draw.rs` — XOR sprite drawing and the check that a sprite fits.
- `src/laws.rs` — properties proved of the instruction set: every cycle keeps
  the machine well formed and keeps a screen of 0s and 1s so, drawing twice
  restores the screen, call/return, BCD digits, register store/load round
  trip, masked random bytes, carry and borrow flags, the bit shifted out,
  timers.
- `src/entropy.rs` — the random byte source (the `rand` crate).
- `app/main.rs` — the program: reads the ROM file, runs the machine, shows the
  screen with `glium`.
