# Consumption tracker

Tracks the weight that the blocks of parachains consume, and tells clients of it as it happens.

- `src/` is the library, verified with Verus: what blocks consumed of their chain's limits, how
  long they took, which update of a parachain is the latest, which events clients get and which
  clients are gone, when a node is connected to again, and how websocket clients are served.
- `app/` talks to nodes and clients. It runs the event server, or the websocket server where its
  first argument is `trackerserver`. The parachains to track are read from `registry.json`.
- `tests/` runs the library.

The event server listens on `SSE_IP` (127.0.0.1) and `SSE_PORT` (9001) and serves `/events`. Each
event is named `consumptionUpdate`, carries the update as JSON, and has the identifier
`{para_id}-{block_number}`.

Shares of a limit are kept as the two integers that they are made of, and times in milliseconds;
`app/wire.rs` turns them into the fractions and seconds that clients read.
