# n42_node

The decision logic of the N42 node as a verified library, with the node around it.

`src/` is the library. Every function in it states what it does in `requires` and
`ensures`, and Verus proves that it does. It reads the clock only to stamp records
and to tell how long ago something was, and opens no file and no socket: what comes
in from outside comes in as plain values, and what is to be done outside goes out
as plain values.

- `orchestrator/` decides what a consensus node does: the event loop (`run`),
  consensus outputs (`consensus_loop`), payload builds and imports
  (`execution_bridge`, `imports`), finalization (`finalize`), slots (`schedule`),
  peers and catching up (`network`, `sync`, `chain`), forwarded transactions
  (`forward`), and the observer (`observer`).
- `payload` orders the transactions of a block; `eof_guard` keeps object-format
  code out of it; `engine_validator` settles which header a payload stands for.
- `ingest` and `inject` are the two transaction protocols; `batch_transfer` the
  blocks of plain transfers.
- `mobile_bridge`, `mobile_packet`, `mobile_evidence`, `mobile_reward`,
  `packet_builder` and `attestation_store` are about the phones that verify blocks.
- `consensus_state`, `epoch_schedule`, `persistence`, `exec_cache`, `components`
  and `node` hold what the parts of a node share.
- `keyed`, `names`, `fifo`, `ring`, `primitives`, `text`, `codec`, `crypto` and
  `header` are what the rest is built on.

Calls into other crates (hashes, signatures, compression, encodings) stand behind
small functions marked `external_body`; the comment on each says what is taken on
trust.

`app/` is ordinary Rust: settings, files, servers, channels, and loops that do what
the library decides. `tests/` runs the library.
