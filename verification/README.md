# execmanager

ExecManager hooks into a code agent's exec tool (Kimi Code) to intercept,
record, snapshot and manage the commands it runs: a per-user daemon launches
each command under a safety policy, journals every step, and a terminal
dashboard shows what is running.

## Layout

- `src/` — the library, verified with Verus:
  - `contracts` — the daemon's wire contracts and the handshake decision;
  - `daemon/` — the launch policy (`rm` rewritten to a safe delete), the
    journal's record framing and scanning, the replayed projection of the
    journal, reconciliation with the processes the OS shows, ownership proofs
    for cleanup, redaction of persisted records, and the RPC decisions;
  - `platform` — resource governance plans (cgroups on Linux, degraded
    observation on macOS);
  - `tui/` — the dashboard's model, navigation, labels and detail sections;
  - `cli/` — command parsing, directory layout, the installer's plan, hook
    merging, service definitions, status, doctor and uninstall decisions;
  - `host_kimi`, `viewers` — routing of Kimi tool calls and viewer attachment.
- `app/` — the `execmanager` program: file and socket I/O, process spawning,
  the terminal, and the JSON encoding of the library's types.
- `tests/` — tests of the library.
