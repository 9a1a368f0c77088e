# bci_core

The state behind the bci.red / bci.blue voting front ends, verified with Verus.

- `src/trit.rs` – names of vote choices and the GF(3) residue of a net score.
- `src/types.rs` – catalogue items and per-item vote aggregates.
- `src/tally.rs` – `AggMap`, the per-item aggregates keyed by item id, with
  totals and the net score (blue minus red).
- `src/history.rs` – the bounded window of recorded net scores.
- `src/app.rs` – `App`: catalogue, aggregates, cursor, history and status line.
- `src/osc.rs` – the oscilloscope's `App`: the same state bound to a server
  endpoint, taking in fetch and vote outcomes.
- `src/bins.rs` – which items each bin lists, which row carries the cursor,
  per-item net scores and per-bin vote totals.
- `src/input.rs` – key bindings and the refresh timer of the event loop.
- `src/laws.rs` – properties that span several operations.
- `app/` – the terminal program: HTTP, JSON and drawing.
