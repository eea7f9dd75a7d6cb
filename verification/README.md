# rchip8

A CHIP-8 interpreter whose core is verified with Verus.

- `src/model.rs` – the mathematical machine (`MachineState`) and the meaning
  of one instruction (`step`), plus `exec_safe`, the states in which an
  instruction stays inside memory, the keypad and 16-bit `I`.
- `src/chip8.rs` – the executable machine `Chip8`: `init` loads a program,
  `exec_with` runs one instruction against `step`, `exec` draws the random
  byte for `CXNN`, `can_exec` decides `exec_safe`, `tick_timers` runs the
  60 Hz timers.
- `src/laws.rs` – properties across instructions (call/return, redraw
  erases, store/load round trip, BCD digits, font addresses, key waits).
- `src/error.rs`, `src/database.rs` – errors, compatibility information and
  their messages.
- `app/main.rs` – the SDL3 window, audio, keyboard and main loop.
