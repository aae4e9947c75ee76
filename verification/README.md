# shapeic_core

The exploration core of a circuit-sizing tool, written in Verus: macro
definitions and their candidate exploration, verified against contracts.

## Layout

- `src/` is the verified library. Every executable function there carries a
  `requires`/`ensures` contract that Verus proves.
  - `exploration/` holds candidate sets, filters, candidate-pair joins and
    combination planning.
  - `macro_model/` holds macro definitions and catalogs, derivation rules,
    runtime exploration inputs and their resolution, validation of
    definitions and inputs, the candidate-build gate and task plan,
    hierarchy paths and inputs, the path-local input of one occurrence
    (`local_input.rs`), the decisions of the depth-first hierarchical
    exploration (`traversal.rs`: which occurrence to preview, explore as a
    leaf, derive or refresh next, and the resulting statuses), and
    exploration statistics.
  - `analysis.rs`, `circuit.rs`, `testbench.rs`, `primitive.rs` describe AC
    targets, circuits, testbenches and catalogued primitives. `text.rs`,
    `entries.rs`, `search.rs`, `value.rs` are shared helpers: text, sorted
    association lists, searches, and finiteness of binary64 bit patterns.
  - Floating-point values are carried as their `u64` bit patterns; the
    library only compares, copies and checks them for finiteness.
  - `analysis.rs` also holds the decision flow of the adaptive AC analysis:
    which metric is measured next, when a failed target stops the analysis,
    and the resulting outcome. The sampling and interpolation themselves are
    floating point and stay in `app/`.
- `tests/` runs the library on concrete values.
- `app/` is ordinary Rust around the library. It holds the floating-point AC
  analysis and table arithmetic, file reading, the candidate evaluation loop,
  and the threads and primitive builds of candidate-set construction.

## Trust

The only item that Verus believes without proof is the wrapper in
`src/text.rs` around std's `str::to_ascii_lowercase`. Its contract says that
`A`..=`Z` become `a`..=`z` and every other character is kept.

## Not covered

- The hierarchical exploration itself is a loop around `traversal.rs` that
  runs each macro exploration, resolves child derivations from accepted
  preview rows and projects explored children into their parent. Those
  steps are not part of this library, so neither the loop nor its error type
  is here.
- Public-input alias validation, compact-seed inputs and prepared AC
  testbenches are not part of this library either.
