# keyring

Keyring is a distributed agent mesh runtime: nodes with Ed25519 identities
form trust groups (keyrings), keep content-addressed blobs and CRDT documents
in a local `redb` store, order events with hybrid logical clocks and vector
clocks, coordinate tasks, and exchange sync frames over QUIC.

## Layout

- `src/` — the library, verified with Verus:
  - `identity` — node identities (keys, `NodeId = BLAKE3(public key)`,
    signing) and keyring membership;
  - `store` — blobs, documents and the `redb`-backed content store;
  - `crdt` — hybrid logical clocks and vector clocks, with their laws;
  - `coordinator` — presence, tasks and routing candidates;
  - `plugin`, `config`, `api`, `cli`, `sync`, `transport` — the plugin
    registry, configuration defaults, command types, divergence detection
    and the wire framing of sync frames;
  - `keyed_map`, `bytes`, `crypto`, `clock` — a small verified map, hex
    rendering, the hashing, signature and randomness calls, and timestamps
    read from the system clock (a clock before 1970 reads as the epoch).
- `tests/` — tests of the library.
- `app/` — the `keyring` program: command-line parsing, files (identity,
  config, database), the QUIC transport, and task scoring.
