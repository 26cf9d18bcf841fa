# group_relay

A relay for chat between two kinds of clients, "center" and "local", that
share a group id. The server admits at most one client of each kind per
group, stamps every message with the group and kind of the connection it
came from, forwards it to the other member of the group, answers
heartbeats, and drops clients that stay silent for longer than the timeout,
telling their partner.

Layout:

- `src/` is the library, verified with Verus.
  - `remote/connection.rs`: client kinds and the table of connected clients.
  - `remote/message.rs`: the message envelope and the envelopes the server writes.
  - `remote/heartbeat.rs`: heartbeat records and timeouts.
  - `remote/handler.rs`: admission and the per-client session steps of the server.
  - `center/message.rs`: the envelopes a client writes and how it shows what it receives.
  - `center/connection.rs`: the server address a client dials.
  - `laws.rs`: properties that hold across operations.
- `app/` runs the programs: `remote` (the server on 127.0.0.1:8080),
  `center` and `local` (console clients). It owns sockets, tasks, timers and
  the JSON encoding, and leaves every decision to the library.
- `tests/` exercises the library on concrete values.
