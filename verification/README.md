# ginger_code

The backend domain logic of the Ginger Code editor, written in Verus: public
functions state in their `requires` / `ensures` what they return or change,
and Verus proves the code against it. Where a result depends on the clock,
the file system or a flag shared between threads, the contract states what
holds of every outcome, which can be little (the cancellation token states
nothing of its flag).

- `src/` is the verified library: project detection and recommendations,
  unified-diff parsing and partial patches, worktree and package
  reconciliation, crash recovery, agent supervision and scheduling, the
  package catalog, settings layers, feature flags, caches, review sessions,
  msgpack-rpc framing for the embedded editor, language-server framing, and
  the text and path helpers they share. Calls into `sha2` and `chrono` stand
  behind small trusted wrappers whose contracts name what they return.
- `tests/` runs the library on concrete inputs.
- `app/` is the unverified shell around it: file system and process I/O,
  async plumbing, SQLite migrations, wire formats with serde derives, and
  start-up.
