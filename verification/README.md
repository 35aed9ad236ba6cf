# remote_file_system

A small remote file system. A server keeps a table of open descriptors
and, for each, the clients watching it; clients read and write byte
ranges of remote files, keep the blocks they read in a local cache, and
drop their cached blocks of a descriptor when the server announces that
another client wrote to it (invalidation on write).

Layout:

- `src/` — the verified library (Verus):
  - `bytes.rs` — big-endian integers and byte copies;
  - `protocol.rs` — requests, responses and their frames, with the
    round-trip laws;
  - `file_manager.rs` — the descriptor table and the status codes of the
    file operations;
  - `client.rs` — the client's cache and what it makes of the server's
    answers;
  - `server.rs` — the watchers of each descriptor and the server's
    answers;
  - `coerencia.rs` — the cache-coherence laws that span client and
    server;
  - `agente.rs` — the decisions of the demo agent, as a step function;
  - `endereco.rs` — socket addresses as plain values.
- `app/` — the program: sockets, the disk, threads and the demo agents.
- `tests/` — tests of the library.
