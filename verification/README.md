# vb_core

The core of a Virtual Boy emulator: the NEC V810 cpu, its instruction cache, the bus with its
memories and devices (timer, game pad, wait controller), the game pak, and the VIP's memory map,
registers and data structures. Every function in `src/` carries a contract and is verified with
Verus; the laws of the library (what a read gives back of a write, what `reti` undoes, that r0
stays zero, that a cache dump restores, and more) are public proof functions beside the code they
speak of.

- `src/cpu/` decodes and executes instructions (`exec::Cpu::step` against `Cpu::step_spec`),
  runs bit-string passes, and applies floating-point outcomes to the cpu state.
- `src/bus.rs`, `src/cart.rs`, `src/timer.rs`, `src/pad.rs`, `src/wait.rs`, `src/vip/` model
  the address space; `BusView` is the mathematical picture the contracts use.
- `src/debug.rs` disassembles; `src/trace.rs` holds the decisions and line formats of the
  trace tool.
- `app/` is the command-line tool: argument parsing, file reading and printing around
  `trace::Trace`, and the single-precision arithmetic that produces an `FpOutcome`.
- `tests/` exercises the library on concrete values.
