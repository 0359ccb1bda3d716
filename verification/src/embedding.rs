//! The dimension rules of L2-normalized sentence embeddings. The vectors
//! themselves are `f32` data handled outside the verified library; what is
//! decided here is which dimensions an operation accepts.

use vstd::prelude::*;
use crate::error::Error;

verus! {

/// The dimension of the canonical base export.
pub const DEFAULT_DIM: usize = 768;

/// Cosine similarity needs two embeddings of the same, non-zero dimension:
/// a mismatch is [`Error::EmbeddingDim`] `{ expected: lhs, got: rhs }`, a zero
/// dimension `{ expected: 1, got: 0 }`.
pub fn try_cosine_dims(lhs: usize, rhs: usize) -> (r: Result<(), Error>)
    ensures
        lhs != rhs ==> (r matches Err(Error::EmbeddingDim { expected, got }) && expected == lhs
            && got == rhs),
        lhs == rhs && lhs == 0 ==> (r matches Err(Error::EmbeddingDim { expected, got })
            && expected == 1 && got == 0),
        lhs == rhs && lhs > 0 ==> r is Ok,
{
    if lhs != rhs {
        return Err(Error::EmbeddingDim { expected: lhs, got: rhs });
    }
    if lhs == 0 {
        return Err(Error::EmbeddingDim { expected: 1, got: 0 });
    }
    Ok(())
}

/// Prefix-truncation of a `current`-dimensional embedding to `dim`
/// dimensions needs `1 <= dim <= current`; otherwise
/// [`Error::EmbeddingDim`] `{ expected: current, got: dim }`.
pub fn to_matryoshka_dims(current: usize, dim: usize) -> (r: Result<(), Error>)
    ensures
        (dim == 0 || dim > current) ==> (r matches Err(Error::EmbeddingDim { expected, got })
            && expected == current && got == dim),
        (1 <= dim <= current) ==> r is Ok,
{
    if dim == 0 || dim > current {
        return Err(Error::EmbeddingDim { expected: current, got: dim });
    }
    Ok(())
}

} // verus!
