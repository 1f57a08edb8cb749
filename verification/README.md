# pumpkin_embed

The logic a game server needs to run inside a phone app instead of as a process
of its own, verified with Verus.

- `src/log_ring.rs`: a bounded log with absolute cursors, for a reader that polls.
- `src/bridge.rs`: the state behind the app's entry points, and the steps of
  starting a server and of reporting a panic.
- `src/stats.rs`, `src/players.rs`, `src/json.rs`: the JSON that the app reads.
- `src/biome.rs`: which biome supplier a dimension uses, and what it asks for.
- `src/seed.rs`: the hash of a world seed that clients are told.
- `src/text.rs`: operations on text.
- `app/`: the C API, output redirection, the panic hook and the driver of a run.
