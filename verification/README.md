# egemma

Sentence embeddings with `embedding-gemma`, split into a verified library
and a thin runtime front end.

- `src/` — the library, verified with Verus: option validation, the
  byte-exact token windowing of long inputs, batch validation and chunking,
  the flattening of tokenized chunks into model inputs, the inference
  session's outlet contract, the output-shape check, checkpoint routing
  between ONNX Runtime and MLX, the MLX input truncation and padding, and the
  embedding dimension rules. Calls into `tokenizers`, `ort` and `std` stand
  behind trusted wrappers whose contracts state what the outside code
  guarantees of its result.
- `app/` — ordinary Rust around it: building and running the ONNX Runtime
  session, the `f32` `Embedding` type and its SIMD dot products, directory
  listing, `serde` forms of the options, the `thiserror` error type, and the
  MLX backend (Apple Silicon only).
- `tests/` — tests of the library, including tokenizer-backed windowing.
