# rm2

The core of a process-manager daemon, verified with Verus, and the daemon around it.

- `src/` is the library: message types and subscriptions (`lib.rs`, `proto`), framing
  (`proto/transport.rs`), log lines (`logger.rs`), connections and routing (`connection.rs`,
  `duplex.rs`), the stored configuration (`config.rs`, `formats.rs`, `paths.rs`) and the
  started processes (`daemon.rs`). It never waits: where the daemon alternates between waiting
  and deciding, the library maps what happened to what is to be done next.
- `app/` performs what the library decides: sockets, files, processes and tasks.
- `tests/` runs the library.

Functions whose names start with `law_` prove what holds of several operations together.
