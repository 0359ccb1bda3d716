use egemma::error::Error;
use egemma::options::{BatchOptions, GraphOptimizationLevel, Options, ThreadOptions};

#[test]
fn defaults_match_spec() {
    let o = Options::default();
    assert_eq!(o.optimization_level(), GraphOptimizationLevel::Level1);
    assert_eq!(o.batch().max_seq_len(), 2048);
    assert_eq!(o.batch().batch_size(), 8);
    assert_eq!(o.batch().max_batch_size(), 1024);
    assert_eq!(o.threads().intra_threads(), 1);
    assert_eq!(o.threads().inter_threads(), 1);
    assert!(!o.threads().parallel_execution());
}

#[test]
fn builder_chains_compose() {
    let o = Options::default()
        .with_optimization_level(GraphOptimizationLevel::Level3)
        .with_batch(BatchOptions::default().with_batch_size(32))
        .with_threads(ThreadOptions::default().with_intra_threads(4));

    assert_eq!(o.optimization_level(), GraphOptimizationLevel::Level3);
    assert_eq!(o.batch().batch_size(), 32);
    assert_eq!(o.threads().intra_threads(), 4);
}

#[test]
fn options_is_copy() {
    fn _require_copy<T: Copy>() {}
    _require_copy::<Options>();
    _require_copy::<BatchOptions>();
    _require_copy::<ThreadOptions>();
}

#[test]
fn validate_rejects_zero_batch_size() {
    let bad = BatchOptions::default().with_batch_size(0);
    match bad.validate() {
        Err(Error::InvalidBatchSize {
            batch_size: 0,
            max_batch_size: 1024,
        }) => {}
        other => panic!("expected InvalidBatchSize {{ 0, 1024 }}, got {other:?}"),
    }
}

#[test]
fn validate_rejects_batch_size_above_max() {
    let bad = BatchOptions::default()
        .with_batch_size(2048)
        .with_max_batch_size(1024);
    match bad.validate() {
        Err(Error::InvalidBatchSize {
            batch_size: 2048,
            max_batch_size: 1024,
        }) => {}
        other => panic!("expected InvalidBatchSize {{ 2048, 1024 }}, got {other:?}"),
    }
}

#[test]
fn validate_accepts_default() {
    BatchOptions::default()
        .validate()
        .expect("default BatchOptions must validate (8 / 1024)");
}

#[test]
fn validate_rejects_zero_max_seq_len() {
    let bad = BatchOptions::default().with_max_seq_len(0);
    assert!(matches!(bad.validate(), Err(Error::InvalidMaxSeqLen)));
    // The batch-size check comes first.
    let both = bad.with_batch_size(0);
    assert!(matches!(
        both.validate(),
        Err(Error::InvalidBatchSize { batch_size: 0, .. })
    ));
}

#[test]
fn setters_update_in_place_and_chain() {
    let mut b = BatchOptions::new();
    b.set_max_seq_len(16).set_batch_size(2).set_max_batch_size(4);
    assert_eq!(b.max_seq_len(), 16);
    assert_eq!(b.batch_size(), 2);
    assert_eq!(b.max_batch_size(), 4);

    let mut t = ThreadOptions::new();
    t.set_intra_threads(3).set_inter_threads(5).set_parallel_execution(true);
    assert_eq!(t.intra_threads(), 3);
    assert_eq!(t.inter_threads(), 5);
    assert!(t.parallel_execution());

    let mut o = Options::new();
    o.set_optimization_level(GraphOptimizationLevel::All)
        .set_batch(b)
        .set_threads(t);
    assert_eq!(o.optimization_level(), GraphOptimizationLevel::All);
    assert_eq!(o.batch().batch_size(), 2);
    assert_eq!(o.threads().inter_threads(), 5);
}

#[test]
fn with_builders_leave_other_fields_alone() {
    let b = BatchOptions::new().with_max_batch_size(9);
    assert_eq!(b.max_seq_len(), 2048);
    assert_eq!(b.batch_size(), 8);
    assert_eq!(b.max_batch_size(), 9);
    let t = ThreadOptions::new().with_parallel_execution(true).with_inter_threads(2);
    assert_eq!(t.intra_threads(), 1);
    assert_eq!(t.inter_threads(), 2);
    assert!(t.parallel_execution());
}
