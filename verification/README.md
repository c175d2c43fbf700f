# data_pipeline

A data pipeline engine: sources (stdin, Kafka) feed columnar batches through a
chain of transforms (field mapping, row filtering) into sinks (stdout,
PostgreSQL), with a dead letter queue, rate limits, checkpoints and an HTTP
control plane.

The library under `src/` is verified with Verus. Public functions state in
their contracts what they return or change, except where the result comes
from the clock, the random source, the order of a hash map's walk, the
moment a stop signal is read, or an outside error's own text;
`src/laws.rs` proves properties that span several calls (transform chains
compose, filtering is idempotent, write chunks cover a batch, listings
respect their query, created pipelines are found, status counts add up,
statuses only move from starting to running to stopped or failed, the dead
letter queue keeps every record, bounds its objects and writes metadata as a
map, a stopped worker flushes and shuts down). A saved checkpoint loads back
as itself: that is stated in the contract of `CheckpointManager::load`.

- `batch`, `transform`: batches with their well-formedness, and the transforms.
- `connectors`: the settings, batches, SQL and offsets of each connector.
- `engine`, `worker`, `control_plane`: the pipeline registry, the worker's
  state machine, and the answers of the HTTP API.
- `dlq`, `checkpoint`, `secrets`, `loader`, `rate_limit`, `config`, `types`,
  `error`, `timestamp`, `text`: the rest of the pipeline's rules.

`app/` is the executable around the library: command line, async runtime,
network and file I/O, and the serde forms of the configuration.
