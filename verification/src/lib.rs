//! Sentence-embedding support for `embedding-gemma`: the verified planning,
//! validation and windowing logic around the tokenizer and the inference
//! runtimes.
//!
//! - [`options`]: batching, threading and optimization options and their
//!   validation.
//! - [`window`]: exact token-count windows over a long input.
//! - [`text_enc`]: batch validation and chunking, flattening a tokenized
//!   chunk into model inputs, the output-shape check, tokenizer setup.
//! - [`session`]: the inference session's outlet contract.
//! - [`backend_select`]: routing a checkpoint directory to a backend.
//! - [`mlx`]: the MLX backend's input truncation, padding and checks.
//! - [`embedding`]: the dimension rules of embeddings.
//! - [`tokenize`]: the tokenizer calls the logic makes.
//! - [`error`], [`textfmt`]: errors and their messages.

pub mod backend_select;
pub mod embedding;
pub mod error;
pub mod mlx;
pub mod options;
pub mod session;
pub mod text_enc;
pub mod textfmt;
pub mod tokenize;
pub mod window;

pub use error::{Error, MlxErrorKind, Result};
pub use options::{Backend, BatchOptions, GraphOptimizationLevel, Options, ThreadOptions};
pub use window::WindowOptions;
