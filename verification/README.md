# app-nap

A daemon that throttles the CPU use of desktop apps by the state of their
windows, their media playback, power-management inhibitors and their own CPU
load. Each window's process is traced to its systemd app units; every window
group votes a policy for its units (performance, background or nap, idle or
busy), and each unit gets the most awake vote. A policy is a list of actions
(CPU weight, CPU quota, freezing, pinning to E-cores) applied in order and
rolled back on failure.

- `src/` is the verified library (Verus): cgroup and `/proc` parsing, the
  CPU-list parser, the load trackers, the tier and policy rules, the unit
  ledger and its reconciliation, rollback of action lists, configuration
  checks. Its contracts state what each function returns or changes; the
  ledger, rollback, transition and confirmation properties are proved as
  lemmas.
- `app/` is the daemon around it: file and D-Bus I/O, the tokio event loop,
  serde for the configuration files, and the floating-point load readings.
- `tests/` runs the library on concrete values.
