# rnf

The front end and runtime support of RNF, a small scripting language with
shell-style assignments, Rust-style functions and structs, and Go-style
channels, written in Verus with its behaviour stated and proved.

## Layout

- `src/text.rs` — character and text helpers shared by the other modules.
- `src/lexer.rs` — the tokenizer with automatic semicolon insertion, proved
  against a model of lexing (`lex`).
- `src/ast.rs` — the syntax tree and its mathematical model.
- `src/parser.rs` — the recursive-descent parser, proved against a model of
  the grammar (`program_from`, `expr_from`, ...).
- `src/precedence.rs` — the operator precedence and associativity law.
- `src/type_syntax.rs` — the tokens that write a type, and that they read
  back as it.
- `src/source.rs` — from source text to a program; file stems.
- `src/diagnostics.rs` — the texts of parse errors and of token kinds.
- `src/env.rs` — variable scopes and their laws.
- `src/runtime.rs` — what the built-in functions compute: integer and text
  conversions, text functions, integer operators, and their laws.
- `src/project.rs` — the files of a new project and where a release binary
  goes.
- `src/value.rs` — run-time values: display, truth, equality, struct fields,
  and the first-in-first-out queue of a channel.
- `src/machine.rs` — the interpreter as a step machine: each `step` does one
  piece of work and hands the host a request (print, run a command, compute
  on floats, spawn a goroutine, ...) whose answer comes with the next step.
  Its laws: statements run in order, `break`/`continue` reach the innermost
  loop, `return` the innermost call, assignment goes through `Env::set`, and
  a call with the wrong number of arguments is an error that runs no body.
- `app/` — the `rnf` command line and the host that runs the machine:
  floating-point arithmetic, pointers, channels, threads, files and
  processes.
- `tests/` — scenario tests for each module.
