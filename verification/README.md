# voidpost-core

Anonymous document sharing on a distributed hash table, with the library's
logic verified in Verus.

A file is cut into chunks of at most 32 000 bytes, each chunk is sealed with
XChaCha20-Poly1305 under a fresh key (`nonce || ciphertext || tag`), and the
sealed manifest and chunks are written to subkeys `0..=N` of one DHT record.
The share link `<record key>#<base64url(key)>` is all a reader needs.

Layout:

- `src/crypto.rs` — key generation, sealing and opening chunks, chunking.
- `src/link.rs` — share link encoding and decoding.
- `src/publish.rs`, `src/retrieve.rs` — the publish and retrieve sessions:
  state machines that decide what DHT operation comes next; the retrieve
  module proves that reading back what publishing wrote returns the file.
- `src/dht_retry.rs` — the retry decisions for transient DHT errors.
- `src/node.rs` — node start-up decisions, default directories, and the
  node's configuration built from the network library's default JSON.
- `src/json.rs` — the model of a JSON value and the calls into `serde_json`.
- `app/` — the command-line program, which performs the network and file
  work the sessions ask for.
