# chip8_core

A CHIP-8 emulator core whose instruction set is specified and proved with Verus.

- `src/machine.rs` — the mathematical model of the machine (`Machine`) and the
  meaning of every instruction (`execute_spec`), with the states in which each
  is defined (`execute_ok`).
- `src/emu.rs` — `Emu`, the interpreter: fetch, decode and execute over fixed
  arrays, each operation proved against the model.
- `src/sprite.rs`, `src/laws.rs` — where sprite pixels land on the wrapping
  screen, and properties that span instructions (call and return, drawing
  twice, the collision flag, storing and loading registers, ...).
- `src/chip8.rs`, `src/cpu.rs` — two smaller cores.
- `app/` — the desktop entry point, the WebAssembly front end and the build
  task.
