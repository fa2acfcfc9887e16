# tachyon stamp

Out-of-circuit semantics of the Tachyon stamp proof, verified with Verus.

- `src/pallas.rs` — Pallas base-field elements and affine points as canonical
  byte encodings; validation and incomplete addition through `pasta_curves`.
- `src/header.rs` — the stamp header (D̂, TĜ, anchor) and its five-element
  encoding.
- `src/step.rs` — the step indices, the merge step (its accumulators are the
  sums of all the sub-trees' points, in any order), and the laws over PCD
  trees: the root is the sum of the leaves whatever the shape, and every leaf
  shares the root's anchor.
- `src/lib.rs` — the application's header size and step registration.
