# anx

ANX is a small statically typed, Java-like language for practising data
structures and algorithms: `int`, `float`, `bool`, `string` and arrays of
them, functions, `if`/`while`/`for`, the usual operators with compound
assignment, `++`/`--` and a conditional operator, and the string builtins
`length`, `charAt` and `substring`.

This crate is its front end and interpreter, verified with Verus:

- `src/lexer` turns source text into tokens; `lex` returns exactly the
  tokens (or the error) that the specification `spec_lex` gives.
- `src/parser` turns tokens into the tree of `src/ast.rs`; `parse` returns
  exactly what the grammar `spec_parse` gives.
- `src/sema` checks scopes and types in two passes and reports every error
  it finds; `analyze` returns exactly the side tables or the error list that
  `spec_check` describes. `symtab` is the scope stack it uses.
- `src/interp` runs a checked program; `interpret` hands each printed line
  to a sink as it is written, and returns the printed lines and the outcome
  that `spec_run` describes. Integer arithmetic wraps;
  floating-point arithmetic is asked of a float unit that the caller passes
  in, since the library itself holds float values only as their bits.

`app/` is the `anx` command line (`check`, `run`, `build`), which reads
files, prints, does IEEE-754 arithmetic for the interpreter and emits native
code through LLVM (inkwell).
