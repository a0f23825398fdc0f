# RemoteLink

The logic of a remote desktop product, written in Rust and verified with Verus: the host service
and its agent, the desktop shell, and three development tools (a coverage gate, a unit-test
inventory and a chaos runner).

## Layout

- `src/` is the library. Every function in it states what it returns or changes, and Verus proves
  it. What a component promises as a whole (a code serves once, a refused request changes nothing,
  a seed decides what a run does) stands beside its functions as proof functions whose names begin
  with `law_`.
  - `host/` — roles, session start and policy, control messages, the agent's state machine, the
    session manager, the tray and the indicator, the service loop of a signaling connection, and
    the course of a served session, on an agent (`agent_run.rs`) or in process (`local_run.rs`).
  - `desktop/` — settings, start at login, the state of the window, input of a live session.
  - `coverage_gate/` — the allowlist, line coverage from reports, which packages pass.
  - `unit_test_agent/` — the public items of Rust sources, workspaces, draft reports.
  - `bug_hunt/` — chaos profiles, seeds, artifacts, the nightly report.
  - `text.rs`, `text_map.rs`, `order.rs`, `paths.rs`, `args.rs`, `platform.rs`, `source_tree.rs`,
    `json.rs`, `hex_text.rs` — what the components share.
- `app/` is the program around the library: arguments, files, processes, sockets, the window.
- `tests/` run the library on concrete values.

## What is taken on trust

Calls into `serde_json` (`src/json.rs`), `rand` (`src/bug_hunt/rng.rs`) and `hex`
(`src/hex_text.rs`) stand in small functions whose contracts are believed, not proved. Each says
what it claims of the function that it calls. A key of `ed25519-dalek` is carried through the session
manager (`src/host/session.rs`) and never looked into.

Media, the network transport, signaling and code verification belong to other parts of the product.
The library takes their results as arguments; `app/links.rs` names what the program needs of them.
