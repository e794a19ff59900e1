# daneel

The verified core of Daneel, an operator dashboard for an OpenClaw gateway. The
library turns what the gateway and the local OpenClaw files report into the
dashboard's models. Its logic is proved by Verus against contracts; the few calls into
the standard library that Verus cannot read (Unicode case mapping, string building)
stand behind small trusted wrappers whose contracts say what is assumed of them.

## Layout

- `src/` — the library:
  - `graph_service.rs`, `graph_laws.rs` — assembly of the agent graph snapshot
    (agents keyed and ordered by id, session decoration, edge normalization) and
    the laws it obeys.
  - `adapter/openclaw/` — mapping of gateway payloads (agents, bindings, active
    sessions) and the relationship hints read from the configuration, `AGENTS.md`
    and `agent.json`, with their laws in `hint_laws.rs`.
  - `gateway/` — connection settings, request frames, response classification, the
    gateway status and the agents overview.
  - `live.rs` — the live event bridge as a state machine: each step returns the
    next state and the actions to perform.
  - `components/`, `pages/`, `router.rs` — the view decisions of the dashboard:
    labels, colours, summary cards, graph card states.
  - `json.rs`, `parse.rs`, `text.rs`, `chars.rs` — the JSON tree the logic reads and
    the string operations it is proved over.
- `tests/` — tests of the library.
- `app/` — the command-line program around the library: configuration and file
  reading, the system clock, the process-wide state cache, websocket traffic with the
  gateway, JSON conversion and output.

Build and verify with the project's scripts; `app/` is ordinary Rust and is not
verified.
