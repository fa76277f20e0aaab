# cpu16

A 16-bit word machine and the tools around it, written in Verus.

- `src/isa.rs` — the instruction set: opcodes, addressing modes, registers,
  the packing of an instruction into one word and its unpacking.
- `src/cpu/` — a cycle-level simulator: the data path (registers, ALU,
  memory, I/O port), the control unit (fetch, decode, execute, interrupts),
  the machine that steps both, the loading of a binary image, and the
  reading of an input schedule.
- `src/compiler/` — a compiler for a small block-structured language:
  line lexer and token lexer, parser to a syntax tree, code generator,
  assembler for hand-written sources, linker to a binary image, and the
  pipeline that runs them. Syntax trees print as `termtree` trees, built
  through that crate and described by their labels in pre-order.
- `tests/` — tests of the library on concrete values.
- `app/` — the command line (`compile`, `run`), file I/O and printing.

Every function in `src/` carries a contract that Verus checks; the laws
of the library (such as that decoding an encoded instruction gives its
fields back, or that a linked binary loads to the program's words) are
proof functions next to the code they speak of.
