# eventcore

The verified core of an event-sourcing library, written in Verus: the
projection pipeline and the decisions of projection runners, an in-memory
event store with optimistic concurrency, state reconstruction, circuit
breakers, metrics, health checks, trace contexts, typed resource lifecycles,
schema compatibility analysis and JSON migrations, subscription positions
and lifecycles, structured log records, per-name command, event store and
projection metrics with the samples a metrics bridge exports, and the
settings and label composition of metric exporters.

Layout:

- `src/` — the library. Every function carries a contract that Verus
  proves; the public proof functions state the laws the library keeps
  (for example that retry delays never shrink and never exceed their cap,
  that a schema is fully compatible with itself, that a found migration
  path chains registered migrations from one version to the other).
- `tests/` — tests of the library on concrete values.
- `app/` — the runtime around the library: async loops that perform the
  effects the pipeline yields, calls through circuit breakers, health
  checks with time limits, conversions to and from `serde_json`, the
  Prometheus export of metrics, the writing of log records, and what needs
  floating point.
