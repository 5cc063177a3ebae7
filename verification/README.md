# tm-core

Deterministic Turing machines, verified with Verus.

Three machines share one interface (`Computable`: `run_once`, `run`,
`check_bounds`, `back`, `reset`): `SingleTapeDTM` (one tape, one head),
`MultiTapeDTM<TAPES>` (one head per tape) and `MultiHeadDTM<HEADS>` (one tape,
several heads). Each is made by a builder. Every machine keeps the
configurations it left, so any step can be taken back, and the simulator's
limits (`TrueBounds`) make every run stop.

Layout of `src/`:

- `types.rs`, `halt.rs`, `error.rs`: states, symbols, transitions, limits and
  verdicts.
- `tape/`: the three tapes, each with a mathematical view (`TapeView`,
  `Seq<TapeView>`, `HeadTapeView`) and the meaning of a write-and-move.
- `table.rs`: transition tables and state sets in rustc_hash's `FxHashMap` and
  `FxHashSet`; the only trusted code.
- `machine/`: the `Computable` and `Builder` traits, and for each machine its
  builder, its view, the spec function `step` that `run_once` implements
  exactly, and the laws proved about steps, `back`, `reset` and `run`.
