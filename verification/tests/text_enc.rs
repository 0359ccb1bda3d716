use egemma::error::Error;
use egemma::options::BatchOptions;
use egemma::text_enc::{
    batch_chunks, check_output_shape, check_text_nonempty, chunk_ranges, configure_tokenizer,
    flatten_chunk, prepare_chunk, EMBED_DIM, PAD_TOKEN,
};
use tokenizers::processors::bert::BertProcessing;
use tokenizers::models::wordlevel::WordLevel;
use tokenizers::pre_tokenizers::whitespace::Whitespace;
use tokenizers::Tokenizer;

fn pad_tokenizer() -> Tokenizer {
    let vocab = [("<pad>", 0u32), ("a", 1), ("b", 2), ("c", 3), ("[UNK]", 4)]
        .into_iter()
        .map(|(w, id)| (w.to_string(), id))
        .collect();
    let model = WordLevel::builder()
        .vocab(vocab)
        .unk_token("[UNK]".to_string())
        .build()
        .unwrap();
    let mut tok = Tokenizer::new(model);
    tok.with_pre_tokenizer(Some(Whitespace));
    tok
}

#[test]
fn pad_token_constant_matches_gemma_vocab() {
    assert_eq!(PAD_TOKEN, "<pad>");
}

#[test]
fn embed_dim_constant_matches_embedding_module() {
    assert_eq!(EMBED_DIM, 768);
}

#[test]
fn batch_chunks_empty_input_is_no_chunk() {
    let opts = BatchOptions::default();
    assert!(batch_chunks(&[], &opts).unwrap().is_empty());
}

#[test]
fn batch_chunks_rejects_oversized_batch() {
    let opts = BatchOptions::default().with_max_batch_size(2);
    match batch_chunks(&["a", "b", "c"], &opts) {
        Err(Error::BatchTooLarge { got: 3, max: 2 }) => {}
        other => panic!("got {other:?}"),
    }
}

#[test]
fn batch_chunks_reports_first_empty_text() {
    let opts = BatchOptions::default();
    match batch_chunks(&["a", "", "b", ""], &opts) {
        Err(Error::Batch { index: 1, source }) => assert!(matches!(*source, Error::EmptyText)),
        other => panic!("got {other:?}"),
    }
}

#[test]
fn batch_chunks_split_in_order() {
    let opts = BatchOptions::default().with_batch_size(3);
    let texts = ["a", "b", "c", "d", "e", "f", "g"];
    let chunks = batch_chunks(&texts, &opts).unwrap();
    assert_eq!(chunks, vec![0..3, 3..6, 6..7]);
    let exact = batch_chunks(&texts[..6], &opts).unwrap();
    assert_eq!(exact, vec![0..3, 3..6]);
}

#[test]
fn flatten_chunk_concatenates_rows() {
    let rows = vec![(vec![5, 6], vec![1, 1]), (vec![7, 0], vec![1, 0])];
    let c = flatten_chunk(&rows, 2, 10).unwrap();
    assert_eq!(c.input_ids, vec![5, 6, 7, 0]);
    assert_eq!(c.attention_mask, vec![1, 1, 1, 0]);
    assert_eq!(c.batch, 2);
    assert_eq!(c.seq_len, 2);
}

#[test]
fn flatten_chunk_empty_first_row_is_empty_text_at_base() {
    let rows = vec![(vec![], vec![])];
    match flatten_chunk(&rows, 1, 8) {
        Err(Error::Batch { index: 8, source }) => assert!(matches!(*source, Error::EmptyText)),
        other => panic!("got {other:?}"),
    }
    match flatten_chunk(&Vec::new(), 0, 8) {
        Err(Error::Batch { index: 8, source }) => assert!(matches!(*source, Error::EmptyText)),
        other => panic!("got {other:?}"),
    }
}

#[test]
fn flatten_chunk_uneven_row_is_row_precise() {
    let rows = vec![(vec![1, 2], vec![1, 1]), (vec![3], vec![1]), (vec![4, 5], vec![1])];
    match flatten_chunk(&rows, 3, 100) {
        Err(Error::Batch { index: 101, source }) => match *source {
            Error::Tokenizer(m) => assert_eq!(
                m,
                "tokenizer produced uneven row 1 (ids=1, mask=1, expected 2)"
            ),
            other => panic!("got {other:?}"),
        },
        other => panic!("got {other:?}"),
    }
}

#[test]
fn prepare_chunk_pads_to_longest_and_flattens() {
    let tok = configure_tokenizer(pad_tokenizer(), 8).unwrap();
    let c = prepare_chunk(&tok, &["a b c", "b"], 4).unwrap();
    assert_eq!(c.seq_len, 3);
    assert_eq!(c.batch, 2);
    assert_eq!(c.input_ids, vec![1, 2, 3, 2, 0, 0]);
    assert_eq!(c.attention_mask, vec![1, 1, 1, 1, 0, 0]);
}

#[test]
fn configure_tokenizer_truncates_to_max_seq_len() {
    let tok = configure_tokenizer(pad_tokenizer(), 2).unwrap();
    let c = prepare_chunk(&tok, &["a b c"], 0).unwrap();
    assert_eq!(c.input_ids, vec![1, 2]);
}

#[test]
fn configure_tokenizer_requires_pad_token() {
    let vocab = [("a", 0u32), ("[UNK]", 1)]
        .into_iter()
        .map(|(w, id)| (w.to_string(), id))
        .collect();
    let model = WordLevel::builder()
        .vocab(vocab)
        .unk_token("[UNK]".to_string())
        .build()
        .unwrap();
    match configure_tokenizer(Tokenizer::new(model), 8) {
        Err(Error::Tokenizer(m)) => assert_eq!(m, "loaded tokenizer has no `<pad>` token"),
        Err(other) => panic!("got {other:?}"),
        Ok(_) => panic!("expected an error"),
    }
}

#[test]
fn configure_tokenizer_rejects_zero_max_seq_len() {
    match configure_tokenizer(pad_tokenizer(), 0) {
        Err(Error::Tokenizer(m)) => {
            assert_eq!(m, "max_seq_len must be > 0 (BatchOptions::with_max_seq_len)")
        }
        Err(other) => panic!("got {other:?}"),
        Ok(_) => panic!("expected an error"),
    }
}

#[test]
fn check_output_shape_accepts_batch_by_768() {
    assert!(check_output_shape(&vec![4, 768], 4, 0).is_ok());
}

#[test]
fn check_output_shape_rejects_rank_and_dims() {
    match check_output_shape(&vec![4, 768, 1], 4, 16) {
        Err(Error::Batch { index: 16, source }) => {
            assert!(matches!(*source, Error::OutputRank { rank: 3, .. }))
        }
        other => panic!("got {other:?}"),
    }
    match check_output_shape(&vec![4, 512], 4, 16) {
        Err(Error::Batch { index: 16, source }) => match *source {
            Error::SessionShapeMismatch { input, expected, got } => {
                assert_eq!(input, "sentence_embedding");
                assert_eq!(expected, "[batch, 768]");
                assert_eq!(got, vec![4, 512]);
            }
            other => panic!("got {other:?}"),
        },
        other => panic!("got {other:?}"),
    }
    assert!(check_output_shape(&vec![3, 768], 4, 0).is_err());
}

#[test]
fn chunk_ranges_partition_inputs() {
    assert!(chunk_ranges(0, 4).is_empty());
    assert_eq!(chunk_ranges(1, 4), vec![0..1]);
    assert_eq!(chunk_ranges(9, 4), vec![0..4, 4..8, 8..9]);
    assert_eq!(chunk_ranges(8, 4), vec![0..4, 4..8]);
    assert_eq!(chunk_ranges(3, 1), vec![0..1, 1..2, 2..3]);
}

#[test]
fn prepare_chunk_reports_base_index_for_empty_rows() {
    let tok = configure_tokenizer(pad_tokenizer(), 8).unwrap();
    // The whitespace-only text tokenizes to nothing: every row is empty.
    match prepare_chunk(&tok, &[" "], 12) {
        Err(Error::Batch { index: 12, source }) => assert!(matches!(*source, Error::EmptyText)),
        other => panic!("got {other:?}"),
    }
}

fn bert_style_tokenizer() -> Tokenizer {
    let mut tok = pad_tokenizer();
    tok.with_post_processor(Some(BertProcessing::new(
        ("[SEP]".to_string(), 5),
        ("[CLS]".to_string(), 6),
    )));
    tok
}

#[test]
fn configure_tokenizer_rejects_max_seq_len_below_special_tokens() {
    match configure_tokenizer(bert_style_tokenizer(), 1) {
        Err(Error::Tokenizer(m)) => {
            assert_eq!(m, "max_seq_len 1 is below the 2 special tokens the tokenizer adds")
        }
        Err(other) => panic!("got {other:?}"),
        Ok(_) => panic!("expected an error"),
    }
}

#[test]
fn configure_tokenizer_keeps_specials_within_max_seq_len() {
    let tok = configure_tokenizer(bert_style_tokenizer(), 3).unwrap();
    let c = prepare_chunk(&tok, &["a b c", "b"], 0).unwrap();
    assert_eq!(c.seq_len, 3);
    assert_eq!(c.input_ids, vec![6, 1, 5, 6, 2, 5]);
    let exact = configure_tokenizer(bert_style_tokenizer(), 2).unwrap();
    let e = prepare_chunk(&exact, &["a"], 0).unwrap();
    assert_eq!(e.input_ids, vec![6, 5]);
}

#[test]
fn prepare_chunk_has_one_row_per_text() {
    let tok = configure_tokenizer(pad_tokenizer(), 8).unwrap();
    let c = prepare_chunk(&tok, &["a", "b c", "c a b"], 0).unwrap();
    assert_eq!(c.batch, 3);
    assert_eq!(c.input_ids.len(), 3 * c.seq_len);
    assert_eq!(c.attention_mask.len(), 3 * c.seq_len);
}

#[test]
fn check_text_nonempty_rejects_only_empty_text() {
    assert!(matches!(check_text_nonempty(""), Err(Error::EmptyText)));
    assert!(check_text_nonempty(" ").is_ok());
    assert!(check_text_nonempty("a").is_ok());
}

#[test]
fn flatten_chunk_messages_render_decimals() {
    let rows = vec![(vec![1, 2], vec![1])];
    match flatten_chunk(&rows, 1, 0) {
        Err(Error::Batch { index: 0, source }) => match *source {
            Error::Tokenizer(m) => {
                assert_eq!(m, "tokenizer produced uneven row 0 (ids=2, mask=1, expected 2)")
            }
            other => panic!("got {other:?}"),
        },
        other => panic!("got {other:?}"),
    }
    let rows = vec![(vec![7; 10], vec![1; 10]), (vec![7; 10], vec![1; 9])];
    match flatten_chunk(&rows, 2, 100) {
        Err(Error::Batch { index: 101, source }) => match *source {
            Error::Tokenizer(m) => {
                assert_eq!(m, "tokenizer produced uneven row 1 (ids=10, mask=9, expected 10)")
            }
            other => panic!("got {other:?}"),
        },
        other => panic!("got {other:?}"),
    }
}
