# mostro_client

The verified core of a Mostro peer-to-peer trading client.

- `src/session.rs` — the per-trade session store: taking, updating and
  removing sessions, the deferred removal that keeps a canceled trade's keys
  through the bond-slash grace window, and the stale-session cleanup.
  `src/session_laws.rs` states and proves how these operations interact.
- `src/logging.rs` — log capture: which records are kept (per-target and
  global ceilings), how a record becomes an entry, the bounded history with
  its consecutive ids, the live stream and the console line.
  `src/logging_laws.rs` holds the laws of the history and of the filters.
- `src/cashu.rs` — the Cashu wallet decisions: the escrow-mode guard, the
  proof store's location, the connect plan and the status shown to the UI.
- `src/order.rs`, `src/keyed.rs`, `src/text.rs`, `src/clock.rs` — the order
  snapshot, maps kept as vectors of keyed records, text helpers, and
  timestamps from clock readings. The library reads no clock itself: the
  operations that need the time take it as an argument.

`app/` holds the process-wide globals, locks, async surface, the platform
clock and the platform console output around the library.
