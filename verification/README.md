# hiko

The logic of the Hiko language toolchain as a library verified with Verus:
lexing, parsing, pretty-printing and formatting source; desugaring and
renaming; type inference and match checking; the builtin table; the bytecode
instruction set and its inspection; lockfile checks; the command line's
argument handling; and the agent harness's model resolution, conversation
loop and tool guide.

## Layout

- `src/` — the library. Every function there is verified against its
  contract.
  - `syntax/` — tokens, lexer, parser, pretty-printer, formatter, desugaring,
    renaming and module paths.
  - `types/` — types, substitutions, the inference context, inference over
    expressions, patterns and declarations, the reading of builtin type
    signatures, and exhaustiveness and redundancy of matches.
  - `compile/` — instructions, chunks, compile errors and import resolution.
  - `builtins.rs`, `inspect.rs`, `lockfile.rs`, `cli.rs`, `docgen.rs` — the
    builtin table, bytecode inspection, lockfile checks, command-line
    handling and documentation text.
  - `harness.rs`, `agent.rs`, `tools.rs` — harness settings and model
    resolution, the agent loop as a state machine, and the tool runner's
    command line and guide.
  - `text.rs` — string helpers shared by the rest.
- `tests/` — tests run against the compiled library.
- `app/` — the `hiko` program around the library: argument reading, files,
  printing, TOML parsing and the driver of the agent loop.
