# Petunia

A desktop Signal client. This crate holds its logic, verified with Verus:

- `src/data` — conversations, contacts, messages and their statuses; what a
  received envelope means; merging and ordering of histories.
- `src/signal` — the decisions of the Signal worker: which texts go out and
  when (`Outbox`), what an envelope is reported as, the status table's codes
  and queries.
- `src/screen`, `src/pane`, `src/client` — the state the user interface
  shows and how each worker event and user action changes it.
- `src/widget`, `src/theme` — the text, labels, colours and the QR picture
  that the views display.

`app/` is the program around it: the `iced` windows and pane grid, the
`presage` account and its store, the status table in SQLite, and the session
file. Verus does not see it.
