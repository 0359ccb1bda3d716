use egemma::error::Error;
use egemma::mlx::build_text_batch;
use egemma::text_enc::prepare_chunk;
use egemma::tokenize::check_truncation;
use egemma::window::{fixed_token_id_windows, WindowOptions};
use tokenizers::models::wordlevel::WordLevel;
use tokenizers::pre_tokenizers::whitespace::Whitespace;
use tokenizers::processors::bert::BertProcessing;
use tokenizers::{Tokenizer, TruncationDirection, TruncationParams, TruncationStrategy};

fn word_tokenizer() -> Tokenizer {
    let vocab = [("<pad>", 0u32), ("a", 1), ("b", 2), ("[UNK]", 3)]
        .into_iter()
        .map(|(w, id)| (w.to_string(), id))
        .collect();
    let model = WordLevel::builder()
        .vocab(vocab)
        .unk_token("[UNK]".to_string())
        .build()
        .unwrap();
    let mut tok = Tokenizer::new(model);
    tok.with_pre_tokenizer(Some(Whitespace));
    tok
}

fn truncation(max_length: usize, stride: usize) -> Option<TruncationParams> {
    Some(TruncationParams {
        direction: TruncationDirection::Right,
        max_length,
        strategy: TruncationStrategy::LongestFirst,
        stride,
    })
}

/// Stride equal to the room left: accepted by `with_truncation`, but encoding
/// a longer text would panic.
fn stride_filling_room() -> Tokenizer {
    let mut tok = word_tokenizer();
    tok.with_truncation(truncation(2, 2)).unwrap();
    tok
}

/// Truncation stored before a post-processor adding two tokens was set.
fn max_length_below_specials() -> Tokenizer {
    let mut tok = word_tokenizer();
    tok.with_truncation(truncation(1, 0)).unwrap();
    tok.with_post_processor(Some(BertProcessing::new(
        ("[SEP]".to_string(), 5),
        ("[CLS]".to_string(), 6),
    )));
    tok
}

#[test]
fn check_truncation_accepts_safe_settings() {
    assert!(check_truncation(&word_tokenizer()).is_ok());
    let mut tok = word_tokenizer();
    tok.with_truncation(truncation(3, 2)).unwrap();
    assert!(check_truncation(&tok).is_ok());
    let mut exact = max_length_below_specials();
    exact.with_truncation(truncation(2, 0)).unwrap();
    assert!(check_truncation(&exact).is_ok());
}

#[test]
fn check_truncation_rejects_stride_filling_room() {
    match check_truncation(&stride_filling_room()) {
        Err(Error::Tokenizer(m)) => assert_eq!(
            m,
            "tokenizer truncation (max_length 2, stride 2) leaves no room beside its 0 special tokens"
        ),
        other => panic!("got {other:?}"),
    }
}

#[test]
fn check_truncation_rejects_max_length_below_specials() {
    match check_truncation(&max_length_below_specials()) {
        Err(Error::Tokenizer(m)) => assert_eq!(
            m,
            "tokenizer truncation (max_length 1, stride 0) leaves no room beside its 2 special tokens"
        ),
        other => panic!("got {other:?}"),
    }
}

#[test]
fn encoding_callers_report_unsafe_truncation_instead_of_panicking() {
    let tok = stride_filling_room();
    let msg = "tokenizer truncation (max_length 2, stride 2) leaves no room beside its 0 special tokens";
    match fixed_token_id_windows(&tok, "a b a b", &WindowOptions::new(), 4096, 1024) {
        Err(Error::Tokenizer(m)) => assert_eq!(m, msg),
        other => panic!("got {other:?}"),
    }
    match prepare_chunk(&tok, &["a b a b"], 7) {
        Err(Error::Batch { index: 7, source }) => match *source {
            Error::Tokenizer(m) => assert_eq!(m, msg),
            other => panic!("got {other:?}"),
        },
        other => panic!("got {other:?}"),
    }
    match build_text_batch(&tok, &["a b a b"], 0, 2048) {
        Err(Error::Tokenizer(m)) => assert_eq!(m, msg),
        other => panic!("got {other:?}"),
    }
}
