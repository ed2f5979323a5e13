# relyzer_swc

Static analysis of React-style TS/TSX modules with SWC: which functions are
components (an `@component` comment, a `'use relyzer'` directive, or an
uppercase name), what each component observes (variables, `useMemo` /
`useCallback` dependencies, JSX attributes passed to components), and what the
module imports. The analysis and the decisions of the transform are written
in Verus and proved against their contracts.

## Layout

- `src/` — the verified library.
  - `json.rs`: a JSON grammar, a reader proved against it, and lookups.
  - `source.rs`: the trusted calls into the parser and the source map; the
    parsed module reaches the library as JSON text.
  - `syntax.rs`, `collector.rs`, `analyzer.rs`: the analysis as spec functions
    over the syntax tree, and the code that computes it.
  - `location.rs`, `text.rs`: locations and source text of spans, `@component`
    marks, decimal and hexadecimal text.
  - `plan.rs`, `runtime_ast.rs`, `transform.rs`: the results, the injected
    code as values, and what the transform inserts where.
  - `laws.rs`: properties of every analysis, proved.
- `tests/` — tests on concrete inputs.
- `app/` — the JavaScript and SWC plugin entry points (the JavaScript one
  reads the clock for the components' ids), serde shapes of the results, the
  syntax-tree visitor that applies the transform, and a comment probe.
