# chip_8

A CHIP-8 interpreter whose processor is verified with Verus.

## Layout

- `src/cpu.rs` – the processor (`CPU`), its abstract state `CpuState`, and
  the operations on it: construction, loading a program, keys, one cycle,
  disassembly, and the frame buffer.
- `src/cpu/operations.rs` – the instruction set: a specification of every
  opcode over `CpuState` (`step`), and the code that carries it out.
- `src/cpu/laws.rs` – properties across instructions: call/return, drawing a
  sprite twice, carries and borrows, the shape of the machine, clipping.
- `src/cpu/stack.rs`, `src/cpu/key.rs`, `src/cpu/constants.rs` – the call
  stack, a timed key, the font and sizes.
- `src/keybindings.rs` – which character presses which keypad key, and
  reading bindings from JSON.
- `src/debugger.rs` – the debugger's commands: command words, addresses in
  decimal or `0x` hexadecimal, breakpoints and jumps.
- `app/` – the program: the window (winit, softbuffer) and terminal
  (crossterm) front ends, the delay and sound timers, which count real time in
  floating-point seconds, and the debugger's read-eval loop.

## Flags

- `-l`/`--legacy`: 8XY6 and 8XYE shift VY into VX.
- `-o`/`--odds`: the program counter may stand at odd addresses.
- `-w`/`--wrapping`: sprites wrap to the other side of the screen instead of
  being clipped.

Run the program under the name `c8db` for the debugger.
