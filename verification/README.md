# rusty_embedder

A pluggable text-embedding interface whose decision logic is verified with
Verus.

- `src/` is the verified library: `EmbedError` and its rendering, the
  `NullEmbedder` backend, the little-endian `f32` byte layout used by
  `sqlite-vec`'s `vec0` tables (over `f32` bit patterns, with its round-trip
  laws), the HTTP backend's configuration, `Debug` rendering with the API key
  redacted, and the step-by-step decisions of an embeddings exchange
  (the response checked against the batch and dimension, then stably
  reordered by index), and the local backend's catalog lookup and
  embedding, with its output checked the same way.
- `app/` is the unverified edge: the `f32`-facing `Embedder` trait and its
  impls, building the HTTP client, the network exchange with the endpoint
  (reqwest, serde), reading API keys from the environment, and downloading
  the fastembed model.
- `tests/` runs the library on concrete values.
