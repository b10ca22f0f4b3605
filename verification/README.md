# codex_native_team

The verified core of a Codex thread that joins an externally managed agent team as a native
teammate, and of the durable automation (loops, cron jobs, monitors) such a thread runs.

- `src/` is the library, written in Verus: every function carries a contract and is proved
  against it. Calls into `sha2`, `serde_json`, `cron`, `chrono` and `toml` go through small
  trusted wrappers whose contracts name what those crates compute.
- `tests/` exercises the library on concrete inputs.
- `app/` is the host around it: the JSON files on disk, the wire shapes, the inbox and
  scheduler passes, and the `teammate` launcher's command line.
