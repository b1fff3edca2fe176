# tokio_chat

A line-oriented chat server over TCP (username handshake, broadcast, `/dm`, `/quit`), three
fan-out server variants, a load driver and two lock benchmarks.

- `src/` is the verified library (Verus): text handling (`text`), what a chat line asks for
  (`command`), a connection's mailbox with its non-waiting send and, for proofs, the log of
  the texts handed to it (`mailbox`), the router that owns the membership and fans messages
  out (`router`), the per-connection protocol as a state machine (`session`), the bus-server
  and terminal-client decisions (`relay`, `client`), the writer slot table of the mutex
  servers (`slots`), probe messages and latency recording for the load driver (`probe`),
  command-line parsing (`cli`) and the lock benchmark's schedule (`bench`).
- `app/` is the binary that does the I/O around it: sockets, the Tokio runtime, timing,
  floating-point rates and CSV output. Its first argument picks the program: `server`,
  `client`, `server_mutex`, `server_broadcast`, `server_threads`, `loadtest`,
  `bench_pathology` or `bench_lock_scaling`.
- `tests/` exercises the library with real Tokio channels and `hdrhistogram` histograms.
