# kaku

Verified core of the kaku terminal workspace tools: the per-workspace metadata store
(status, progress, a bounded activity log), the notification store with its unread
navigation, task-pane lifecycle records, the task center and its overlay, the command-line
requests and tables, the multiplexer server's handling of those requests, and the native
shell's snapshot, rail, terminal bookkeeping and shell start-up plan.

Layout:

- `src/` — the library, written in Verus. Every function carries a contract; the
  cross-operation properties live in `src/laws.rs`. Calls into `chrono`, `shlex`, `termwiz`,
  `tabout` and a few `std` functions go through small trusted wrappers whose contracts name
  their results.
- `tests/` — ordinary Rust tests of the library.
- `app/` — the `kaku` program around the library: argument parsing with `clap`, JSON with
  `serde`, the terminal front end of the task-center overlay with `termwiz`, and process
  spawning with `portable-pty`.
