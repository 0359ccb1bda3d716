//! The error type of the library.

use vstd::prelude::*;
use crate::options::Backend;

verus! {

/// Which phase of the MLX backend produced an [`Error::Mlx`]: reading or
/// validating the checkpoint config, loading weights, or the inference pass.
#[derive(Debug, Clone, Copy, PartialEq, Eq, Structural)]
pub enum MlxErrorKind {
    /// Config read / parse / validation.
    Config,
    /// Weight load / key remap / model construction.
    Load,
    /// Inference: tensor build, forward pass, or output extraction.
    Runtime,
}

/// The errors the library's logic reports.
#[derive(Debug)]
#[non_exhaustive]
#[allow(inconsistent_fields)]
pub enum Error {
    /// A required output tensor was not present in the session output map.
    MissingOnnxOutput {
        /// Name of the missing output.
        name: &'static str,
    },
    /// Tokenizer load or use failure.
    Tokenizer(String),
    /// The runtime returned a tensor whose rank was not 2.
    OutputRank {
        /// Number of dimensions of the returned tensor.
        rank: usize,
        /// The full shape.
        shape: Vec<i64>,
    },
    /// A session outlet violated the shape contract.
    SessionShapeMismatch {
        /// Outlet name.
        input: &'static str,
        /// What was expected.
        expected: &'static str,
        /// The actual shape.
        got: Vec<i64>,
    },
    /// A session outlet violated the element-type contract.
    SessionContractMismatch {
        /// Outlet name.
        input: &'static str,
        /// What was expected.
        expected: &'static str,
        /// The actual element type, by name.
        got: String,
    },
    /// Embedding dimension mismatch.
    EmbeddingDim {
        /// Required dimension.
        expected: usize,
        /// Supplied dimension.
        got: usize,
    },
    /// An empty text input.
    EmptyText,
    /// More inputs than the configured maximum.
    BatchTooLarge {
        /// Number of inputs.
        got: usize,
        /// Configured upper bound.
        max: usize,
    },
    /// A requested backend cannot be honored.
    BackendUnavailable {
        /// The backend asked for.
        requested: Backend,
        /// Why it could not be honored.
        reason: String,
    },
    /// `batch_size` outside `1..=max_batch_size`.
    InvalidBatchSize {
        /// The rejected batch size.
        batch_size: usize,
        /// The configured upper bound.
        max_batch_size: usize,
    },
    /// `max_seq_len` was zero.
    InvalidMaxSeqLen,
    /// A failure at a position of a batched input.
    Batch {
        /// Zero-based index into the input.
        index: usize,
        /// Underlying error.
        source: Box<Error>,
    },
    /// A failure of the MLX backend.
    Mlx {
        /// Which phase failed.
        kind: MlxErrorKind,
        /// Description of the failure.
        message: String,
    },
    /// The allocator could not reserve a scratch buffer on the MLX path.
    AllocationFailed {
        /// The buffer the allocator was asked to reserve.
        which: &'static str,
        /// Number of bytes that were requested.
        requested_bytes: usize,
        /// The allocator's own description of the failure.
        cause: String,
    },
}

impl Error {
    /// An [`Error::Mlx`] from a static reason.
    pub fn mlx(kind: MlxErrorKind, reason: &'static str) -> (r: Error)
        ensures
            r matches Error::Mlx { kind: k, message: m } && k == kind && m@ == reason@,
    {
        Error::Mlx { kind, message: crate::textfmt::owned(reason) }
    }

    /// An [`Error::Mlx`] from an owned reason.
    pub fn mlx_owned(kind: MlxErrorKind, reason: String) -> (r: Error)
        ensures
            r matches Error::Mlx { kind: k, message: m } && k == kind && m == reason,
    {
        Error::Mlx { kind, message: reason }
    }
}

/// The library's `Result`, with [`Error`] as the error type.
pub type Result<T> = core::result::Result<T, Error>;

} // verus!
