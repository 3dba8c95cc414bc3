# teeny

A compiler for the Teeny language, a small Rust-like language, to TeenyAT
assembly, written in Verus: each pass is proved against a mathematical
description of what it computes.

- `src/lexer/`: the lexer. `scan.rs` describes the token that starts at a
  position (`scan_token`); `mod.rs` reads the tokens of a source text, ending
  with one `Eof`.
- `src/arith_lexer.rs`: a smaller lexer for arithmetic expressions.
- `src/parser/`: the syntax tree (`ast.rs`), the precedence table, the debug
  form of expressions used in error messages (`debug.rs`), and the parser,
  whose results `grammar.rs` describes token by token (`p_program`, `p_stmt`,
  `p_expr`, ...).
- `src/analysis/`: name resolution (`symbol.rs`, described by `resolve_stmt`)
  and type checking (`type_checker.rs`, described by `infer` and `tc_stmt`).
- `src/codegen.rs`: code generation, described by `gen_expr` and `gen_stmt`.
- `src/visitor.rs`: a visitor over the syntax tree.
- `app/main.rs`: the command-line driver: reads a file, runs the passes,
  reports errors with miette, writes the assembly.

The laws of the language that the passes keep (comparisons are `Bool`,
functions only at the global scope, labels never repeat, constants take no
stack space, an expression's code pushes exactly one word, the stack frame
layout, ...) are proof functions next to the code they are about.
