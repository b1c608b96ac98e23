# shell_ast

The syntax tree of a POSIX shell script and an interpreter for it, verified with Verus.

- `src/ast.rs`, `src/word.rs`: the syntax tree, and what words evaluate to.
- `src/glob.rs`: patterns, matched by the `globset` crate.
- `src/env.rs`, `src/child.rs`: variables and functions, and the programs to be run.
- `src/machine.rs`: the interpreter. It takes one step at a time and asks its caller to run
  programs.
- `src/semantics.rs`: what a script means, apart from the interpreter.
- `src/simulation.rs`, `src/laws.rs`: the proof that the interpreter does what a script means, and
  the other laws.
- `app/`: runs scripts with real processes.
