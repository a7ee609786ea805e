# cluster_runtime

The core of a cluster runtime node, written in Verus and proved against its
specifications: the job lifecycle and queue, the bookkeeping of a job submission, the job
history and result stores, the start-up order of the Python backends, the
Dask process records and cluster snapshots,
dependency detection for Python jobs, the MPI launcher's planning and reporting, the Dask process and cluster
rules, the plugin registry, peer authentication, heartbeats, LAN discovery,
peer and cluster bookkeeping, the framing of messages between nodes, and
the event history.

Layout:

- `src/` — the verified library. Each module states its behaviour in
  `requires`/`ensures` contracts over mathematical models (`Seq`, `Map`,
  views); laws that relate several operations are public proof functions.
  Calls into outside crates (random numbers, HMAC-SHA256, the clock,
  UUIDs, JSON reading, path joining, Unicode lowercase) sit behind small trusted wrappers
  whose doc comments say what is assumed.
- `app/` — the headless node around the library: process spawning, sockets,
  files, timers, the environment, dynamic plugin loading.
- `tests/` — executable tests of the library.
