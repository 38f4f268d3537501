# brs

A compiler for BRS, a small language of variable assignments, `exit(expr)`
statements and `{ ... }` blocks over arithmetic and logical expressions. It
turns a source file into x86-64 or AArch64 assembly for Linux, macOS or
Windows.

The library is written in Verus and verified:

- `utility`: targets (`Arch`, `OS`) and text helpers (decimal numbers,
  search and replace over characters).
- `compiler::tokenizer`: the tokenizer and the bracket handler that tells a
  call's brackets from expression brackets.
- `compiler::parser`: the token stream (statement lines), the shunting-yard
  conversion to postfix, the expression and statement factories, the parser
  and its error log.
- `compiler::generator`: instruction texts per target, the operation table,
  the stack of variables, the helper routines and the code generator.
- `compiler::Compiler`: tokenize, parse and generate in one call.

Every public function states its result over spec functions; the laws of
the library (what generation always produces, what parsing keeps, what
block scoping undoes) are public proof functions next to the code they
speak of.

`app/` holds the command-line program: it reads the source file, prints
parse errors with source excerpts, writes the assembly and runs the
assembler and linker. `tests/` holds the tests.
