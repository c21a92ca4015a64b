# llm_app

Verified core of a layered local language-model workspace, written in Verus.

- `src/task_graph/` — allocation-free workflow task graphs: structural and
  acyclicity validation (Kahn's algorithm over caller-owned scratch), and the
  per-task runtime state machine with readiness queries and block propagation.
- `src/gguf/` — the GGUF model-file header as a specification over bytes, and
  bounded inspection of the metadata a backend needs before loading tensors.
- `src/storage.rs` — versioned binary records for desktop settings and the
  model catalogue, with their validation rules and round-trip laws.
- `src/workspace.rs` — the workspace's dependency-tier policy.
- `src/runtime/` — runtime transport failures, checked memory-footprint
  accounting, and the application's cooperative shutdown as a state machine.
- `src/bytes.rs`, `src/text.rs`, `src/identifiers.rs` — shared byte, text and
  identifier vocabulary.

`app/` holds what performs I/O: the workspace runner, the redb-backed store and
reading GGUF headers from disk. `tests/` exercises the library.

Not covered: the inference runtime registry (model loading, request
admission, prefill and decode, unload transitions), its hosted worker thread,
and the runtime limits. They are built on the model-loader, lifecycle,
sequence and channel vocabulary of the workspace's contract and host-runtime
crates, and on the runtime's command protocol, none of which is part of this
project's sources; only the footprint arithmetic, the transport failure types
and the shutdown decisions they share with the application are here.
