# hypercore

A HyperCard-like document model (stacks of cards holding buttons and fields over shared
backgrounds) and the front end of its HyperTalk dialect, written in Verus: each function
states its behaviour in `requires`/`ensures` and is proved against it.

Layout:

- `src/model.rs` — the document; geometry and other measures are kept as `f32` bit
  patterns and never computed on.
- `src/text.rs` — ASCII case folding, decimal rendering, character classes.
- `src/script/` — the tokenizer (`lexer.rs`), the grammar as a specification
  (`grammar.rs`), the parser proved equal to it (`parser.rs`), the AST (`ast.rs`), the
  runtime's decisions (`interp.rs`: handler lookup, sends, navigation, budgets) and the
  script-visible properties (`props.rs`).
- `src/session.rs` — the host-facing session: lookups by id, authoring, inspector
  properties, the canvas draw list, hit testing, touch planning and dispatch results.
- `src/view.rs` — the semantic view tree for the native render target.
- `tests/` — tests run against the compiled library.
- `app/` — the program around it: file formats (serde), the expression evaluator and
  interpreter (floating-point values), the desktop REPL and the Android bridges.
