# mq-bridge endpoint logic, verified

The decisions behind the bridge's endpoints, written in Verus and proved against their
contracts: how routes are checked and resolved, how HTTP requests are routed, admitted,
answered and compressed, how an HTTP publisher builds its requests and reads its replies,
how Kafka records become messages and batches and how a Kafka consumer settles and drains
them, how memory queues cut and settle batches and route replies to their waiters, what the
IBM MQ worker threads decide between their queue-manager calls, which reader or writer an
endpoint is built as, which routes skip the pipeline, and how transport URLs are read.

- `src/` is the verified library. Each module states what its functions return in
  `ensures` clauses over mathematical models (`Seq`, `Map`, spec functions), and the laws
  that relate several functions as proof functions (`lemma_*`).
- Calls into outside crates (`hyper`, `flate2`, `lz4_flex`, `zstd`, `base64`, `uuid`,
  `fast_uuid_v7`, `async-channel`) stand behind small trusted wrappers whose doc comments
  say what is assumed of them.
- `tests/` runs the library on concrete values.
- `app/` holds the edges: environment and machine reads, and conversions between `hyper`
  types and the plain values the library works on.
