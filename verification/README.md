# atomic_sync

The verified core of synchronisation in the Atomic version control system.

- `src/push`, `src/pull`: the `push` and `pull` commands. Each is a session that is told
  what came of a step and says what to do next; `laws.rs` states what holds of whole runs.
- `src/transport`: remote addresses, authentication and the push, pull and watch exchanges
  with an `atomic-server` over gRPC.
- `src/store`: queries, statistics, removal and export of the redb change store; `laws.rs`
  states what holds between several calls.
- `src/history.rs`, `src/order.rs`, `src/types.rs`: hashes, histories and dependency order.
- `src/text.rs`, `src/remote.rs`, `src/error.rs`: texts, remotes and errors.

`app/` holds the ordinary Rust around the library: command line, network and files.
`tests/` run the library.
