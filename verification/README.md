# sysy_compiler

A compiler from SysY to Koopa IR and on to RISC-V assembly, written in Verus.

- `src/lexer.rs`, `src/sysy.rs`: tokens and syntax trees of SysY source.
- `src/ir/`: lowering of syntax trees to Koopa IR text. The text of a whole
  unit is stated by `lower_unit` in `src/ir/generate/unit_spec.rs`; constant
  evaluation, initializers, declarations, statements and functions each
  have a spec of their own beside the code.
- `src/riscv/`: Koopa programs are read into plain values
  (`program.rs`), stack frames are laid out (`frame.rs`, stated by
  `layout`), and assembly is emitted (`generate.rs`, stated by
  `asm_program` in `asm_spec.rs`). Calls into the `koopa` crate stand in
  `koopa_ir.rs`.
- `app/`: the command-line driver: `MODE INPUT [-o OUTPUT]`, with `MODE`
  one of `-koopa`, `-riscv`, `-ast`.
