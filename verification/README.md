# mill_io

A reactor-style event loop library whose decision logic carries proved contracts.

- `src/` — the library, with its contracts and proofs:
  - `object_pool` — a bounded FIFO pool of reusable objects.
  - `thread_pool` — the priority queue and counters of the compute pool,
    round-robin worker choice, default worker count.
  - `reactor` — the registry of interests by token and the dispatch decision.
  - `event` — readiness events detached from the poller.
  - `net::tcp` — connection ids, the connection table with its admission
    limit, the reaction to read outcomes, logging levels.
  - `shared_map` — the `lockfree` map as the registry and the connection
    table use it (trusted specifications).
- `app/` — the runtime around it: poller, reactor loop, worker threads, TCP
  server and client, configuration.
- `tests/` — tests of the library.
