# rust_edge_compute

An edge computing node: it takes measurement streams over ZeroMQ, releases each
point's messages in sequence order, batches them into windows, schedules the
resulting tasks over C++, ML, Python/WebAssembly and container executors, and
serves an HTTP API with security checks, auditing, metrics and self-updates.

## Layout

- `src/` is the library, written in Verus. Every function there carries a
  contract that Verus proves: the offset tracker, the window aggregator and
  processor, the scheduler's retry rules, input validation, rate limiting,
  permission checks, escaping, the audit trail, encryption framing, version
  comparison and checksums, and the bookkeeping of the executors (device use,
  model cache, dependency pins, plugin tables). Calls into other crates (AES-GCM,
  Argon2, SHA-512, base64, serde_json, candle tensors, clocks and random numbers)
  go through small trusted wrappers whose contracts say what those crates
  document. The `lemma_*` proof functions state the laws that span several
  operations, such as that decryption undoes encryption or that offsets are
  released in order and each once.
- `app/` is ordinary Rust around the library: sockets, timers, files, processes,
  the HTTP routes, the serializable copies of the library's records, and the
  steps that compute in floating point.
- `tests/` runs the library with the real outside crates linked.
