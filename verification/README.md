# ftrio

Feature toggles resolved from a configuration file you own (`appsettings.json`), with the
decision logic proved correct by Verus: for a given configuration, user and attributes, what a
toggle resolves to is stated exactly, up to the roll of a percentage rollout (or of an A/B test
without a user). What an application's own sources, context accessors and strategies answer is
outside the proofs: there the contracts state what is asked of them and how their answers are
combined.

## Layout

- `src/` — the verified library.
  - `config.rs` — the JSON-shaped configuration model, case-insensitive key lookup, overlay
    merging, and the merged settings view.
  - `strategies/` — the value grammar: booleans, percentage rollouts, blue-green slots, user
    lists, attribute rules and A/B buckets.
  - `parsing.rs`, `providers.rs` — the resolution chain (offline default, per-user overrides,
    first matching strategy, boolean fallback) and the value sources.
  - `runtime.rs` — the builder, gated calls, the ambient parser slot, staged toggle writes and
    the background flush schedule.
  - `cli/` — the logic of the `ftrio` tool: reading JSON text, reports, release checks,
    conformance cases, the lint, manifests and timestamps.
  - `laws.rs` — properties that span several operations, stated and proved.
- `tests/` — tests on concrete values.
- `app/` — the `ftrio` program and the process-level pieces: file and network I/O (the bytes
  read are parsed by the library), the process-wide ambient parser, the background write
  buffer's thread, and source scanning with `syn`.
