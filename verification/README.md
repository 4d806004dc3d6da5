# loom_sema

The semantic analysis of the Loom language, and the parts of its runtime that
format and keep values, as a library whose behaviour is stated in contracts and
proved with Verus.

- `src/hir.rs`, `src/ids.rs`, `src/diagnostics.rs`, `src/rendering.rs`: programs,
  and what is said of them.
- `src/module_graph.rs`, `src/module_order.rs`, `src/def_map.rs`,
  `src/entries.rs`: modules, the order of their dependencies, and the names that
  each file sees.
- `src/ty.rs`, `src/substitution.rs`, `src/unify.rs`, `src/structure.rs`,
  `src/growth.rs`, `src/instances.rs`: types.
- `src/conformance.rs`, `src/impl_scope.rs`, `src/heads.rs`, `src/overlap.rs`,
  `src/solver.rs`, `src/coherence.rs`, `src/selection.rs`: implementations of
  concepts, where they may be used, which of them overlap, and the search for
  evidence.
- `src/declare.rs`, `src/implement.rs`, `src/recursive.rs`, `src/dynamic.rs`,
  `src/canonical.rs`, `src/constants.rs`, `src/constant_chains.rs`: declarations.
- `src/check.rs` and the modules it uses: the bodies of functions.
- `src/flow.rs`, `src/joins.rs`, `src/symbolic.rs`, `src/meaning.rs`: what is
  known on each path of the control flow, and why it is right.
- `src/patterns.rs`, `src/coverage.rs`: patterns, and that an accepted match
  covers every value.
- `src/analysis.rs`, `src/outcomes.rs`: the whole analysis.
- `src/json_layout.rs`, `src/json_stage.rs`, `src/json_escapes.rs`,
  `src/typed_json.rs`, `src/value.rs`, `src/witness.rs`: values and proofs of a
  running program.

Most state is a persistent list (`src/chain.rs`). A method that changes state has
a specification function of the same name on the mathematical state, and its
contract says that it computes that function. Facts that relate several functions
are public proof functions whose names begin with `law_`.

The library holds no floating-point numbers and reads no raw memory. It asks for
the results of float operations and for the contents of addresses; `app/` answers.
