# pi_rs

The core of a terminal coding agent, written in Verus: the parts that decide
and compute carry `requires` / `ensures` contracts that Verus proves.

- `src/protocol`: the Host Protocol's message kinds and tags, the
  length-prefixed framing (with its 16 MiB cap), and the fixture messages.
- `src/host`: the extension host's lifecycle as a typestate machine
  (boot, handshake, heartbeat, backoff, crash loop) and the supervisor's
  decisions, one function per step; the mock host's replies.
- `src/render`: the streaming markdown pipeline (pulldown-cmark events,
  tree-sitter highlighting, the code-block cache, grapheme-width wrapping),
  the retained message model and its projection to lines, the render
  state machine, and the terminal enter / restore sequences.
- `src/session`: the session file format: header, entries, migration from
  version 1 to the current version, the path from leaf to root and the
  context built from it.
- `app/`: what cannot be verified: sockets, processes, threads, the tokio
  runtime, the ratatui backend, and the serde / MessagePack / ts-rs copies
  of the library's types. It calls the library for every decision.
- `tests/`: tests against the compiled library.

Calls into outside crates stand behind small trusted items in `src/`, each
with a doc comment that says what its contract claims of the crate.
