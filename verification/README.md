# mxmlc verifier

The verifier of an ActionScript 3 and MXML compiler, written in Verus. It
type-checks programs and maps their nodes to entities of a semantic model
(types, values, properties and scopes held in a `Database`), reporting
errors and warnings as it goes. Its behaviour is stated in `requires` /
`ensures` contracts and proved.

Layout of `src/`:

- `ast.rs`, `semantics.rs`, `diagnostics.rs`: the syntax tree, the semantic
  model and the diagnostics.
- `subverifier.rs`: the verifier's state, its invariants over verification
  steps (node mappings never change once set, diagnostics are only appended,
  at most one error per offset, a verifier that found an error is
  invalidated), scopes, phases, and the dispatch of expression verification.
  A ghost log of every diagnostic the verifier reported lets contracts name
  the kind of each error they promise.
- `resolution.rs`: name lookup and implicit conversions.
- `exp*.rs`, `arguments.rs`, `array.rs`, `object_literal.rs`,
  `assignment_destructuring.rs`: expressions.
- `directive.rs`, `function_definition.rs`, `package_directives.rs`,
  `function_common.rs`: directives, variable and function definitions,
  lambdas, imports and package concatenations, verified in phases.
- `program_verifier.rs`: the entry points, `Verifier::verify_programs` and
  `Verifier::verify_expression`.
- `compiler_options.rs`: compiler options.

The tests under `tests/` run the verifier on small syntax trees.
