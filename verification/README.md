# vos

A small virtual computer and the operating system around it: a 32-bit RISC processor with its
ALU and registers, paged memory, memory-mapped display, keyboard and timer, a virtual machine
tying them together, a kernel (processes, round-robin scheduler, system calls, an inode file
system with a virtual file system on top), an assembler, a debugger, the lexer of a small
scripting language, a command shell and a minimal HTML browser.

The library under `src/` is written in Verus: every function carries a contract, and the
properties that span several operations (decoding what was encoded, reading back what was
written, the scheduler's invariant, the shell's command semantics, ...) are stated and proved as
proof functions next to the code they are about.

- `src/` — the verified library, one module per component.
- `tests/` — tests of the library on concrete values.
- `app/` — the command line: an interactive shell over the virtual file system, the terminal
  side of the debugger, and the script syntax tree (its float literals keep it out of the
  verified library).
