# jingle

Verified analyses over SLEIGH p-code, written in Verus.

- `src/sleigh.rs`: varnodes, indirect varnodes and p-code operations.
- `src/analysis/`: varnode sets and maps; the stack-offset lattice; back-edge
  counting for loop unwinding; symbolic valuations of locations (values,
  their simplifier, valuation sets, the transfer function and join of the
  valuation analysis, and their text forms); strongly connected components,
  reducibility checks and natural loops of control-flow graphs, and the
  representation of structured control flow (blocks, sequences, branches,
  loops) with its text form.
- `src/modeling/`: p-code operations modelled as terms over a byte-level
  state of arrays and stores: over a trace that records what it reads and
  writes (`model.rs`, `state.rs`, `term.rs`, `ops.rs`), and as steps of a
  machine state, memory and symbolic program counter (`machine/`); concrete
  program-counter values and block branch constraints.
- `app/`: the command-line front end and the conversions from the SLEIGH
  bindings' types to the library's.
