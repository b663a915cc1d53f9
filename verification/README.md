# oxa

A tree-walking interpreter for a small Lox-like language, verified with Verus.

- `src/` is the verified library: the scanner (`scanner`) and a strict scanner
  for expressions that reports what it cannot read (`scanner::strict`), the parser
  (`parser`), the syntax tree and its printer (`ast`), runtime values
  (`object`), variables (`environment`), the interpreter (`interpreter`), the
  errors and their reports (`errors`), and the generator of the syntax-tree
  source files (`generator`). Floats are carried as IEEE-754 bit patterns and
  computed by a float engine the caller supplies (`float`).
- `app/` is the command: it reads a script or a line of input, prints what
  the library reports, and exits with the error's code.
- `tests/` holds the tests.
