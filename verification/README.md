# xtalk

A WebSocket voice-dialogue runtime (the X-Talk server) whose core is verified
with Verus.

## Layout

- `src/` — the verified library. Its functions carry `requires` / `ensures`
  contracts that Verus proves. The few calls into `serde_json`, `uuid`,
  `tokio-util` and `std` go through trusted items (`external_body` wrappers
  and `assume_specification`s) whose contracts Verus believes without proof;
  each says in its doc comment what it claims of the outside function.
  - `text`, `json`: character-level text helpers and the JSON view the rest of
    the library works on (parsing goes through `serde_json`; string escaping
    is written and proved here).
  - `events`: session events and their wire type names.
  - `bus`: the per-session subscription table (priority order) and the
    `error.occurred` depth, cooldown and rate limits.
  - `models`: model traits, the error type and the dummy models.
  - `chat`: the OpenAI-compatible chat agent's request and its SSE decoder.
  - `protocol`: inbound frame parsing and outbound frame encoding.
  - `serving`: the gateways, the per-session managers as state machines, and
    session admission (limiter and session table).
  - `server`: authorization hooks, configuration and model building, and the
    manager stack of a session.
- `app/` — the server binary: configuration file loading, the async event bus
  that awaits handlers, model calls that take time, the HTTP chat client and
  the axum WebSocket endpoint. It drives the library's state machines.
- `tests/` — tests of the library.

Run with `--config <path>` pointing at a JSON configuration with `asr`, `tts`,
`llm_agent` and optional `vad` slots (`"type": "dummy"`), and optional
`max_sessions` (default 32) and `listen` (default `0.0.0.0:11995`).
