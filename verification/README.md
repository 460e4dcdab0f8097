# kanban-wasm

A Kanban board with planning (spaces, epics, stories, tags), time tracking and
a focus timer. The board's rules live in `src/`, a library verified with Verus:
every operation on columns, cards, epics, stories, tags and the timer has a
contract, and `src/laws.rs` proves the properties that hold across operations.

- `src/` — the verified library (model, board operations, planning, metrics,
  timer, navigation, seed data, asset routing for the launcher).
- `tests/` — tests on concrete values.
- `app/` — the Leptos user interface, browser storage and the desktop launcher
  that serves the built UI; they call the library for every decision.
