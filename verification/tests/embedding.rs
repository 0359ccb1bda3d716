use egemma::embedding::{to_matryoshka_dims, try_cosine_dims, DEFAULT_DIM};
use egemma::error::Error;

#[test]
fn cosine_dims_mismatch_reports_lhs_and_rhs() {
    match try_cosine_dims(2, 3) {
        Err(Error::EmbeddingDim { expected, got }) => {
            assert_eq!(expected, 2, "lhs dim");
            assert_eq!(got, 3, "rhs dim");
        }
        other => panic!("expected Error::EmbeddingDim, got {other:?}"),
    }
    assert!(matches!(
        try_cosine_dims(0, 0),
        Err(Error::EmbeddingDim { expected: 1, got: 0 })
    ));
    assert!(try_cosine_dims(4, 4).is_ok());
}

#[test]
fn matryoshka_dims_accept_prefixes_only() {
    assert!(to_matryoshka_dims(DEFAULT_DIM, 256).is_ok());
    assert!(to_matryoshka_dims(DEFAULT_DIM, 768).is_ok());
    assert!(matches!(
        to_matryoshka_dims(DEFAULT_DIM, 0),
        Err(Error::EmbeddingDim { expected: 768, got: 0 })
    ));
    assert!(matches!(
        to_matryoshka_dims(DEFAULT_DIM, 769),
        Err(Error::EmbeddingDim { expected: 768, got: 769 })
    ));
}
