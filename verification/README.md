# whale

A toolchain library — typed IR, storage layout, AST lowering, IR
verification and printing, object sections and link-time layout — whose
behaviour is stated as Verus contracts and proved.

## Layout

- `src/target.rs` — the supported output target, its data layout and object identity.
- `src/ir/` — the typed IR:
  - `types.rs`, `module.rs`, `builder.rs` — values, instructions, modules and their construction;
  - `census.rs` — counts of the operations and declarations that a function's blocks hold;
  - `constant.rs`, `const_expr.rs`, `float.rs` — constants, compile-time expressions and their evaluation, float storage text;
  - `layout.rs` — checked sizes, alignments, field offsets and strides;
  - `validity/` — the module verifier: structure, operand typing, constants, control flow and dominance, and the laws that its verdict ignores storage order;
  - `printer.rs` — the textual form;
  - `lower_ast/` — O0 lowering of the frontend AST, with `check.rs` stating which programs lower and which error each rejected program reports.
- `src/object.rs`, `src/assembler.rs` — sections, symbols and assembler output records.
- `src/linker/` — section placement and symbol resolution.
- `src/wir/` — the early word-level IR built from a minimal statement list.
- `app/` — the `whale` command: argument handling, files, the JSON boundary and float conversions.
- `tests/` — scenario tests of the library.

Laws proved about the library include: the layout of every type has a size
that is a multiple of its alignment and fields that never overlap; placed
sections never overlap in memory and respect their alignment; resolved
symbols sit under their own keys; module verification does not depend on the
storage order of module constants, of a function's blocks or of its value-type
table; float storage text reads back as written;
lowering reports exactly the first rule a program breaks; and lowering keeps
one instruction per source operation and per local constant declaration, with
constant initializers evaluated at compile time; a lowered module passes the
verifier's target, module-constant and function-name checks, and one without
functions verifies.
