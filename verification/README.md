# content

Composable, styled document content, verified with Verus.

Content is an element function with a list of attributes: fields, children, styles, and marks such
as spans, guards and locations. The attributes sit in an `EcoVec` of the `ecow` crate, so that a
clone is cheap.

- `src/model.rs` says what content is as a mathematical tree, `src/content.rs` holds the type and
  its methods.
- `src/attr.rs` and `src/eco.rs` hold the boundary to `ecow`; `src/message.rs` the one to the
  formatting of the standard library.
- `src/equality.rs`, `src/query.rs`, `src/concat.rs`, `src/debug.rs` hold equality, search, sums
  and the debug form.
- `src/selector.rs`, `src/style.rs`, `src/value.rs`, `src/elem.rs`, `src/meta.rs`, `src/cast.rs`
  hold the types that content works with.
- `src/laws.rs`, `src/laws_eq.rs`, `src/laws_query.rs` state and prove what holds between the
  operations.
- `app/` connects content with an evaluator and with formatting.

Running out of memory is not modelled.
