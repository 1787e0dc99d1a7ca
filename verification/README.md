# oi

The Oi language: a lexer, a parser, a module loader, a compiler from the syntax tree to a small
instruction set with ownership bookkeeping, and an interpreter for that instruction set. The
library is written in Verus, and Verus proves it free of panics and overflow. The contracts are
exact where a function's result can be stated briefly (the grammar of
integer operator expressions, the module rules, the ownership bookkeeping, the arithmetic of the
machine); the compiler's larger functions state their refusals, the shape of the code they emit
and the bindings they keep, and some internal helpers state no more than that they terminate.

## Layout

- `src/` — the library.
  - `lexer.rs`, `parser.rs`, `ast.rs`: source bytes to tokens to items; macros expand as they
    are parsed.
  - `loader.rs`, `qualify.rs`: files into modules, the rules on `module`, `use` and `pub`, and
    the program-wide names of each module's definitions.
  - `translator.rs`, `lower.rs`, `control.rs`, `calls.rs`, `rc.rs`, `types.rs`, `program.rs`:
    the compiler. `rc.rs` holds the ownership rules: every resource has one owner, a move
    ends the source's ownership, and a scope releases what it owns last-in, first-out.
  - `ir.rs`, `machine.rs`: the instruction set and its interpreter, with integer arithmetic
    that wraps in each integer kind.
  - `testing.rs`: running a program's tests one by one and reporting them.
  - `cache.rs`, `commands.rs`, `driver.rs`, `role.rs`, `text.rs`: the cache directory's
    entries, project scaffolding, the debugging switches, `core` names, byte-string helpers.
- `app/` — the `oi` command line: reads files and standard input, calls the library, writes
  what the program printed.
- `tests/` — programs with their expected output, and the laws on concrete values.

Floating-point arithmetic is not part of the library: float literals are kept as text, and
operations on them are refused.

## Limits

The library is verified to terminate, so its recursion is bounded, and the bounds are part of
the contracts:

- parsing gives up with "expression nests too deeply" past `PARSE_FUEL` (100,000) levels of
  recursion, and lowering past `LOWER_FUEL` (4,096) levels of nesting;
- the interpreter aborts a program with "stack overflow" past `DEPTH` (10,000) nested calls,
  and with "the program ran out of steps" after `u64::MAX` loop iterations.

Not supported: `comp` (compile-time evaluation) and the embedded `core` library of `.oi`
modules; importing `rt` is refused as internal to `core`.
