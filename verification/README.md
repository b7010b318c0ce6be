# peach

A compiler for the small Peach language (functions, structs with methods, fixed arrays and
slices, loops, builtin print macros) to C, written as a Verus library with a thin command-line
program around it.

## Layout

- `src/lexer`: the scanner. `scanner::lex` states the lexical grammar as a function on the
  source text; `tokenize` is proved to compute it.
- `src/parser`: the syntax tree (`ast`, with a mathematical image of every node), the grammar
  as functions on token sequences (`grammar`), the recursive-descent parser proved to
  follow it, and properties of the grammar (`laws`): an expression statement is the expression a
  `return` would take, and lexing and parsing the text of a type gives the type back.
- `src/semantic`: the typing rules as functions (`rules`), the type checker proved to apply
  them, and properties of the rules (`laws`): errors only accumulate, a clean check leaves
  every declaration typed, loop scopes are restored, suggested names are close and in scope.
- `src/generator`: the C text as functions of the tree (`emit`), the generator proved to write
  it, the builtin macros, and properties of the output (`laws`): the output only grows, every
  file begins with the standard headers, and a checked program fails only on unsupported
  constructs.
- `src/helper`: compile errors, text utilities, and the error formatter that finds where an
  error is and which source lines to show round it.
- `src/lib.rs`: options, output paths, and `compile_source`, the whole pipeline on a source
  text.
- `app/`: the `peach` and `pc` commands: reading and writing files, printing progress and
  colored error reports.
