# symex

Symbolic execution of ARM Cortex-M machine code, verified with Verus.

Machine instructions are translated into a small intermediate language
("general assembly"), whose operations run over bit-vector expressions with
a precise semantics, a byte addressable symbolic memory and an executor
state. A virtual machine explores the paths of a function depth first and
reports how each path ended, with its instruction and cycle counts.

## Layout

- `src/` is the library. Every function in it carries a contract that Verus
  proves; the calls into the `regex`, `object` and `gimli` crates stand behind a few
  trusted wrappers whose contracts are documented where they are declared.
  - `arch/`: ARMv6-M and ARMv7-M operations, their translation into general
    assembly, and Cortex-M0/M0+ cycle counts.
  - `general_assembly/`: operands, operations, conditions and shifts.
  - `smt/`: expressions with their evaluation semantics, symbolic arrays and
    the constraint solver.
  - `memory/`: the byte addressable memory.
  - `symex/`: the project loaded from a binary, the executor state, the
    execution of operations and instructions, path selection, the virtual
    machine, and reading a project, its loadable segments and the functions
    that its debug information names out of the bytes of an ELF file.
- `tests/` holds the tests, run against the compiled library.
- `app/` is the command line program: it reads the ELF file, decodes its
  instructions with the ARMv6-M parser (whose instruction type is turned
  into the library's one variant by variant) and prints the result of each
  path.
