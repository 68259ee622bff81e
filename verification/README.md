# rush

A small Unix shell, written as a Verus library with a thin program around it.

- `src/` is the verified library: the three line languages of the shell
  (lexers, tokenizers and parsers, each with a contract that fixes its
  result), the decisions that run a parsed line (which process to start with
  which streams, what follows the left side of `&&`, `||`, `;`, a pipe or a
  redirection), the built-in commands, the prompts, and the pool of
  background job numbers. Laws about the parsers (a line has one parse, a
  parse reads as far as its level goes) and the lexer (a space neither joins
  nor splits tokens) are public proof functions.
- `app/` holds what Verus does not check: reading lines, starting
  processes, opening files, changing directory, threads, and the calls into
  `libc` for the user, host and home directory.
- `tests/` runs the library on concrete lines.

`src/` is checked with Verus; `app/` and `tests/` are ordinary Rust.
