# vit

A compiler for Vit, a small statically typed language, to native code through
LLVM. The library is verified with Verus; the `vit` command around it reads
files, resolves `import`/`link` directives and runs `llc` and `clang`.

## Layout

- `src/lexer.rs` — source text to tokens; `lex` states exactly which tokens
  (with their lines and columns) a text gives, or which error stops it.
- `src/token.rs`, `src/ast.rs` — tokens and the syntax tree, with their
  mathematical models.
- `src/grammar.rs` — the grammar as spec functions over token sequences;
  `src/parser.rs`, `src/expr.rs`, `src/stmt.rs`, `src/program.rs` — the parser,
  each function proved to give exactly what the grammar gives.
- `src/precedence.rs`, `src/laws.rs` — properties of the grammar: operator
  precedence and grouping, compound assignment, reading back a type, map
  capacities.
- `src/display.rs`, `src/listing.rs` — a program written back as text.
- `src/vtype.rs`, `src/table.rs` — the code generator's types, layouts and
  symbol tables.
- `src/llvm.rs` — the calls into `inkwell`; `src/codegen.rs` and
  `src/codegen/` — code generation.
- `src/driver.rs` — the command line and the `import`/`link` directives.
- `app/main.rs` — the `vit` command.

## Notes

- The code generator's symbol tables (`src/table.rs`) are vectors of entries in
  which the newest entry for a name wins. Verus accepts `HashMap` with `String`
  keys, but its specification gives no lookup facts for such keys, and the
  code generator's contracts need them.
- What the generated LLVM code computes when it runs is not stated: LLVM
  values, types and the builder's state are opaque to the proofs. The
  generator keeps a ghost record of the requests it makes of LLVM
  (`llvm::Trace`): arithmetic, comparisons, branches, constants, initialisers,
  function lookups and calls, each with the values it used and gave. The
  contracts state, over that record, which requests each construct makes and in
  what order (a loop's test and step, where `break` and `continue` branch, the
  operation a binary operator asks for, the arguments of a call, the steps of
  the string hash, the first slot a map probes, a string buffer's append), and
  besides, which types and functions the generator records, which inputs it
  refuses and with which message, and that the runtime's helpers fail only
  when LLVM refuses a request or a function they call is missing.
