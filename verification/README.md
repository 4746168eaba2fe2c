# herald

The core of Herald, a multi-tenant real-time event server (WebSocket streams,
presence, chat), written in Verus. The functions of `src/` carry contracts that Verus proves, except
the small wrappers around outside code (the system clock and random source, `uuid`,
`base64`, `subtle`, `x25519-dalek`, `dashmap`, a few std conversions): each is marked
`#[verifier::external_body]`, its contract is assumed, and its doc comment says what it
claims of the code it calls.

The presence and typing trackers keep their entries in `Table` (`src/registry/table.rs`),
a vector with at most one entry per key, where a hash map keyed by strings would be the
usual choice: with `String` keys (or pairs of them), vstd's specification of std's
`HashMap` does not let Verus prove what lookups return, so the table's invariant and
its map view are proved here instead. The connection and
stream registries keep `dashmap::DashMap`, behind wrappers.

Layout:

- `src/protocol.rs`, `error.rs`, `presence.rs`, `room.rs`, `auth.rs`, `cursor.rs`,
  `json.rs`, `text.rs`: the wire protocol (frames, error codes, presence states) and
  the text and JSON handling it needs.
- `src/config.rs`, `env.rs`, `cli.rs`, `ids.rs`: configuration from a file or the
  environment, its validation, the command line, and fresh identifiers.
- `src/http/`: the rules of the HTTP API — credentials, token scopes, the per-tenant
  rate limit, request ids, input validation, and the decisions of the handlers
  (publishing events, creating streams and tenants, health probes).
- `src/registry/`: the in-memory state — streams and their subscriptions, live
  connections and watchlists, presence overrides, typing indicators.
- `src/engine.rs`, `src/engines/`, `src/chat/`: the engine set (hooks, background
  tasks, the delivery filter asked engine by engine) and the chat and presence engines.
- `src/fanout.rs`, `src/backplane.rs`: fan-out instructions, and the cross-instance
  fan-out of events written by other instances.
- `src/metering.rs`, `src/integrations/`: usage metering and the external services,
  each behind a circuit breaker that fails open or closed as the service requires.
- `src/admin_events.rs`, `src/latency.rs`: the admin event bus, statistics snapshots
  and latency histograms.
- `src/wasm/`: the key exchange of the browser SDK.
- `app/`: the program around the library — reading the command line, environment and
  configuration file, and what is computed in floating point.
- `tests/`: tests of the library.
