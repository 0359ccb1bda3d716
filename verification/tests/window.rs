use egemma::error::Error;
use egemma::window::{
    fixed_token_id_windows, id_windows, window_budget, TokenEncoding, WindowOptions,
};
use tokenizers::models::wordlevel::WordLevel;
use tokenizers::pre_tokenizers::whitespace::Whitespace;
use tokenizers::processors::bert::BertProcessing;
use tokenizers::Tokenizer;

/// A whitespace `WordLevel` tokenizer with vocab `a`..`j` + `[UNK]`, no
/// post-processor: every token is content.
fn test_tokenizer() -> Tokenizer {
    let vocab = [
        ("a", 0u32),
        ("b", 1),
        ("c", 2),
        ("d", 3),
        ("e", 4),
        ("f", 5),
        ("g", 6),
        ("h", 7),
        ("i", 8),
        ("j", 9),
        ("[UNK]", 10),
    ]
    .into_iter()
    .map(|(w, id)| (w.to_string(), id))
    .collect();
    let model = WordLevel::builder()
        .vocab(vocab)
        .unk_token("[UNK]".to_string())
        .build()
        .unwrap();
    let mut tok = Tokenizer::new(model);
    tok.with_pre_tokenizer(Some(Whitespace));
    tok
}

/// The same vocabulary plus `[CLS]`/`[SEP]` framing every encoding.
fn test_tokenizer_with_specials() -> Tokenizer {
    let vocab = [
        ("a", 0u32),
        ("b", 1),
        ("c", 2),
        ("d", 3),
        ("e", 4),
        ("f", 5),
        ("g", 6),
        ("h", 7),
        ("i", 8),
        ("j", 9),
        ("[UNK]", 10),
        ("[CLS]", 11),
        ("[SEP]", 12),
    ]
    .into_iter()
    .map(|(w, id)| (w.to_string(), id))
    .collect();
    let model = WordLevel::builder()
        .vocab(vocab)
        .unk_token("[UNK]".to_string())
        .build()
        .unwrap();
    let mut tok = Tokenizer::new(model);
    tok.with_pre_tokenizer(Some(Whitespace));
    tok.with_post_processor(Some(BertProcessing::new(
        ("[SEP]".to_string(), 12),
        ("[CLS]".to_string(), 11),
    )));
    tok
}

#[test]
fn fixed_token_windows_have_expected_token_counts_and_spans() {
    let tok = test_tokenizer();
    let text = "a b c d e f g h i j";
    let opts = WindowOptions::new().with_size(4).with_overlap(1);
    let w = fixed_token_id_windows(&tok, text, &opts, 4096, 1024).unwrap();
    assert_eq!(w.len(), 3);
    assert_eq!(&text[w[0].0.clone()], "a b c d");
    assert_eq!(&text[w[2].0.clone()], "g h i j");
    assert_eq!(w[0].1, vec![0, 1, 2, 3]);
    assert_eq!(w[2].1, vec![6, 7, 8, 9]);
}

#[test]
fn fixed_token_single_window_when_under_size() {
    let tok = test_tokenizer();
    let text = "a b c";
    let opts = WindowOptions::new().with_size(8).with_overlap(0);
    let w = fixed_token_id_windows(&tok, text, &opts, 4096, 1024).unwrap();
    assert_eq!(w.len(), 1);
    assert_eq!(&text[w[0].0.clone()], "a b c");
    assert_eq!(w[0].1, vec![0, 1, 2]);
}

#[test]
fn fixed_token_consecutive_windows_share_overlap() {
    let tok = test_tokenizer();
    let text = "a b c d e f g h i j";
    let opts = WindowOptions::new().with_size(4).with_overlap(1);
    let w = fixed_token_id_windows(&tok, text, &opts, 4096, 1024).unwrap();
    assert_eq!(&text[w[0].0.clone()], "a b c d");
    assert_eq!(&text[w[1].0.clone()], "d e f g");
    assert_eq!(w[0].1, vec![0, 1, 2, 3]);
    assert_eq!(w[1].1, vec![3, 4, 5, 6]);
}

#[test]
fn fixed_token_empty_text_is_empty() {
    let tok = test_tokenizer();
    let opts = WindowOptions::new().with_size(4);
    let w = fixed_token_id_windows(&tok, "", &opts, 4096, 1024).unwrap();
    assert!(w.is_empty());
}

#[test]
fn fixed_token_overlap_ge_size_terminates() {
    let tok = test_tokenizer();
    let text = "a b c d e";
    let opts = WindowOptions::new().with_size(3).with_overlap(5);
    let w = fixed_token_id_windows(&tok, text, &opts, 4096, 1024).unwrap();
    assert_eq!(w.len(), 3);
    assert_eq!(&text[w[0].0.clone()], "a b c");
    assert_eq!(w[0].1, vec![0, 1, 2]);
}

#[test]
fn size_is_clamped_to_max_seq_len() {
    let tok = test_tokenizer();
    let text = "a b c d e";
    let opts = WindowOptions::new().with_size(10_000);
    let w = fixed_token_id_windows(&tok, text, &opts, 4, 1024).unwrap();
    for (_, ids, _) in &w {
        assert!(ids.len() <= 4, "window has {} ids (cap 4)", ids.len());
    }
}

#[test]
fn zero_budget_is_rejected() {
    let tok = test_tokenizer();
    let opts = WindowOptions::new();
    let err = fixed_token_id_windows(&tok, "a b", &opts, 0, 1024).unwrap_err();
    assert!(matches!(err, Error::Tokenizer(_)), "got {err:?}");
}

#[test]
fn too_many_windows_is_batch_too_large() {
    let tok = test_tokenizer();
    let text = "a b c d e f g h i j";
    let opts = WindowOptions::new().with_size(2);
    let err = fixed_token_id_windows(&tok, text, &opts, 4096, 2).unwrap_err();
    assert!(
        matches!(err, Error::BatchTooLarge { max: 2, .. }),
        "got {err:?}"
    );
}

#[test]
fn huge_size_does_not_overflow() {
    let tok = test_tokenizer();
    let opts = WindowOptions::new().with_size(usize::MAX);
    let w = fixed_token_id_windows(&tok, "a b c", &opts, 4096, 1024).unwrap();
    assert_eq!(w.len(), 1);
    assert_eq!(w[0].1, vec![0, 1, 2]);
}

#[test]
fn fixed_token_windows_fit_budget() {
    let tok = test_tokenizer();
    let text = "a b c d e f g h i j";
    let opts = WindowOptions::new().with_size(3).with_overlap(1);
    let w = fixed_token_id_windows(&tok, text, &opts, 4096, 1024).unwrap();
    for (_, ids, _) in &w {
        assert!(ids.len() <= 3, "window has {} ids (budget 3)", ids.len());
    }
}

#[test]
fn fixed_token_size_is_real_content_tokens_not_total_ids() {
    let tok = test_tokenizer_with_specials();
    let text = "a b c d e f g h i j";
    let opts = WindowOptions::new().with_size(4).with_overlap(0);
    let w = fixed_token_id_windows(&tok, text, &opts, 4096, 1024).unwrap();
    assert_eq!(w[0].1, vec![11, 0, 1, 2, 3, 12]);
    assert_eq!(&text[w[0].0.clone()], "a b c d");
    assert_eq!(w[0].2, 4, "first window: 4 content tokens, not 6 ids");
    assert_eq!(
        w.last().unwrap().2,
        2,
        "final window: 2 content tokens (i j)"
    );
    for (_, ids, n) in &w {
        assert!(ids.len() <= 6, "window has {} ids (cap 6)", ids.len());
        assert_eq!(
            *n,
            ids.len() - 2,
            "content count must exclude the 2 specials"
        );
    }
}

#[test]
fn fixed_token_size_one_with_specials_is_one_content_token() {
    let tok = test_tokenizer_with_specials();
    let text = "a b c";
    let opts = WindowOptions::new().with_size(1);
    let w = fixed_token_id_windows(&tok, text, &opts, 4096, 1024).unwrap();
    assert_eq!(w.len(), 3, "stride 1 → one window per content token");
    assert_eq!(w[0].1, vec![11, 0, 12]);
    assert_eq!(w[1].1, vec![11, 1, 12]);
    assert_eq!(w[2].1, vec![11, 2, 12]);
}

#[test]
fn fixed_token_size_zero_with_specials_clamps_to_one_content_token() {
    let tok = test_tokenizer_with_specials();
    let text = "a b";
    let opts = WindowOptions::new().with_size(0);
    let w = fixed_token_id_windows(&tok, text, &opts, 4096, 1024).unwrap();
    assert_eq!(w.len(), 2);
    assert_eq!(w[0].1, vec![11, 0, 12]);
    assert_eq!(w[1].1, vec![11, 1, 12]);
}

#[test]
fn fixed_token_reserve_filling_max_seq_len_is_rejected() {
    let tok = test_tokenizer_with_specials();
    let opts = WindowOptions::new().with_size(4);
    let err = fixed_token_id_windows(&tok, "a b c", &opts, 2, 1024).unwrap_err();
    assert!(matches!(err, Error::Tokenizer(_)), "got {err:?}");
}

#[test]
fn window_options_default_and_builders() {
    let o = WindowOptions::default();
    assert_eq!(o.size(), None);
    assert_eq!(o.overlap(), 0);
    let o = o.with_size(7).with_overlap(2);
    assert_eq!(o.size(), Some(7));
    assert_eq!(o.overlap(), 2);
}

#[test]
fn window_budget_clamps_and_reports_reserve() {
    let none = WindowOptions::new();
    assert_eq!(window_budget(&none, 10, 3).unwrap(), 7);
    assert_eq!(window_budget(&none.with_size(0), 10, 3).unwrap(), 1);
    assert_eq!(window_budget(&none.with_size(5), 10, 3).unwrap(), 5);
    assert_eq!(window_budget(&none.with_size(50), 10, 3).unwrap(), 7);
    match window_budget(&none, 3, 3) {
        Err(Error::Tokenizer(m)) => assert_eq!(
            m,
            "window budget is zero: special-token reserve 3 fills max_seq_len 3"
        ),
        other => panic!("got {other:?}"),
    }
    match window_budget(&none, 2, 5) {
        Err(Error::Tokenizer(m)) => assert_eq!(
            m,
            "window budget is zero: special-token reserve 5 fills max_seq_len 2"
        ),
        other => panic!("got {other:?}"),
    }
}

#[test]
fn id_windows_frames_content_and_skips_empty_spans() {
    // [CLS] x y z [SEP] with the middle token having a degenerate span.
    let enc = TokenEncoding {
        ids: vec![100, 1, 2, 3, 101],
        offsets: vec![(0, 0), (0, 1), (2, 2), (4, 5), (0, 0)],
        special_tokens_mask: vec![1, 0, 0, 0, 1],
    };
    let opts = WindowOptions::new().with_size(1);
    let w = id_windows(&enc, &opts, 16, 16).unwrap();
    // Window for token 2 has span (2, 2): dropped.
    assert_eq!(w.len(), 2);
    assert_eq!(w[0].0, 0..1);
    assert_eq!(w[0].1, vec![100, 1, 101]);
    assert_eq!(w[1].0, 4..5);
    assert_eq!(w[1].1, vec![100, 3, 101]);
    assert_eq!(w[1].2, 1);
}

#[test]
fn id_windows_all_special_is_empty() {
    let enc = TokenEncoding {
        ids: vec![100, 101],
        offsets: vec![(0, 0), (0, 0)],
        special_tokens_mask: vec![1, 1],
    };
    let w = id_windows(&enc, &WindowOptions::new(), 16, 16).unwrap();
    assert!(w.is_empty());
}

#[test]
fn id_windows_cover_every_content_token() {
    // 7 content tokens, size 3, overlap 1: starts 0, 2, 4 and the last
    // window [4, 7) reaches the end.
    let enc = TokenEncoding {
        ids: (0..7).collect(),
        offsets: (0..7).map(|i| (i, i + 1)).collect(),
        special_tokens_mask: vec![0; 7],
    };
    let opts = WindowOptions::new().with_size(3).with_overlap(1);
    let w = id_windows(&enc, &opts, 64, 64).unwrap();
    let spans: Vec<_> = w.iter().map(|x| x.0.clone()).collect();
    assert_eq!(spans, vec![0..3, 2..5, 4..7]);
    let mut covered = vec![false; 7];
    for (span, _, _) in &w {
        for t in span.clone() {
            covered[t] = true;
        }
    }
    assert!(covered.iter().all(|&c| c));
}

#[test]
fn reserve_filling_window_names_reserve_and_cap() {
    let tok = test_tokenizer_with_specials();
    let opts = WindowOptions::new();
    match fixed_token_id_windows(&tok, "a b c", &opts, 2, 1024) {
        Err(Error::Tokenizer(m)) => assert_eq!(
            m,
            "window budget is zero: special-token reserve 2 fills max_seq_len 2"
        ),
        other => panic!("got {other:?}"),
    }
}

#[test]
fn too_many_windows_reports_the_count() {
    let enc = TokenEncoding {
        ids: (0..10).collect(),
        offsets: (0..10).map(|i| (i, i + 1)).collect(),
        special_tokens_mask: vec![0; 10],
    };
    // size 2, overlap 0: 5 windows.
    match id_windows(&enc, &WindowOptions::new().with_size(2), 64, 4) {
        Err(Error::BatchTooLarge { got: 5, max: 4 }) => {}
        other => panic!("got {other:?}"),
    }
    assert_eq!(
        id_windows(&enc, &WindowOptions::new().with_size(2), 64, 5)
            .unwrap()
            .len(),
        5
    );
}

#[test]
fn windows_content_count_excludes_specials_and_fits_cap() {
    let tok = test_tokenizer_with_specials();
    let text = "a b c d e f g h i j";
    // Default size fills the window: max_seq_len 5 minus 2 specials = 3.
    let w = fixed_token_id_windows(&tok, text, &WindowOptions::new(), 5, 1024).unwrap();
    assert_eq!(w.len(), 4);
    for (_, ids, n) in &w {
        assert!(ids.len() <= 5);
        assert!(*n >= 1);
        assert_eq!(*n, ids.len() - 2);
        assert_eq!(ids[0], 11);
        assert_eq!(*ids.last().unwrap(), 12);
    }
    assert_eq!(&text[w[3].0.clone()], "j");
}
