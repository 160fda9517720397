# js_x_ray

Static analysis of JavaScript programs given as ESTree trees: the rules
("probes") that recognise suspicious code, the helpers that read ESTree
nodes, the recognisers of obfuscation tools, the dependency graph of entry
files with its cycles, and the sets of collected values. The library in
`src/` is written in Verus, and Verus proves each function against its
contract. Where a result rests on the platform (how a path splits into
components, its separator) or on an outside crate, the contract states only
what holds whatever that outcome is.

Layout:

- `src/json.rs`: the JSON value that ESTree trees arrive in.
- `src/parser.rs`: parsing with oxc, line tables, and the `loc` given to
  every node.
- `src/estree/`: reading nodes (identifiers, member paths, call arguments,
  literals, locations).
- `src/probe.rs`, `src/probes/`: the probes and the runner's decisions.
- `src/probe_runner.rs`: probes with behaviour, run over a tree in
  document order; the warnings of a walk are stated exactly (`spec_walk`).
- `src/ast_analyser.rs`: the analyser's setup and the analysis of a
  parsed source.
- `src/obfuscators/`, `src/deobfuscator.rs`: obfuscation recognisers.
- `src/entry_files_analyser/`: import following (the step-by-step walk
  over entry files and their imports) and the dependency graph.
- `src/collectable_set.rs`, `src/node_counter.rs`: collected values and
  node counts.
- `src/collections.rs`, `src/patterns.rs`: the `indexmap` and `regex`
  crates as the library uses them.
- `app/lib.rs`: what stays outside the verified library: serde, floats,
  the file system, timing, and the loops that read files for an analysis.
- `tests/`: tests of the library on concrete inputs.
