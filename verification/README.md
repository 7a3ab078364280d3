# ownify_desk

A local dashboard that manages several agent processes, with its decisions
written in Verus and proved.

- `src/text.rs` — lines, trimming, joining, decimal rendering and padding.
- `src/slug_map.rs` — a map keyed by agent slug, shared by the registry and
  the cookie jar.
- `src/process.rs` — process status, the registry of started agents, start
  checks, the record of processes that exited or crashed, locating the agent
  binary, and injecting an agent's port into its
  configuration.
- `src/agents.rs` — agent metadata, validation of new agents, edits, and the
  listing, detail, dashboard and status views.
- `src/proxy.rs` — agent API addresses, the session-cookie handshake, and the
  replies of the proxy.
- `app/` — the executable: command line, HTTP server, file storage, process
  spawning and HTTP calls to agents.
- `tests/` — tests of the library on concrete values.
