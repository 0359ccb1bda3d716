//! The MLX backend's verified pieces: where an explicit weight file's
//! `config.json` is read from, the dense/quantized discrimination of a
//! weight map by its keys, the id conversion for MLX inputs, and the
//! building of a text batch: every tokenized row cut to its first
//! `max_seq_len` ids, then right-padded to the batch's longest row.

use std::path::Path;
use tokenizers::Tokenizer;
use vstd::prelude::*;
use vstd::string::StringExecFns;
use crate::error::{Error, MlxErrorKind};
use crate::textfmt::{decimal, str_ends_with, u32_to_decimal, usize_to_decimal};
use crate::tokenize::{batch_encodes_to, rows_view, texts_view, truncation_error};

verus! {

/// The config file name inside an MLX checkpoint directory.
pub const CONFIG_FILE: &'static str = "config.json";

/// The key suffix of a quantized layer's scales tensor.
pub const QUANT_SCALES_SUFFIX: &'static str = ".scales";

/// `std::path::Path`, carried through the library as an opaque value.
#[verifier::external_type_specification]
#[verifier::external_body]
pub struct ExPath(Path);

/// What `Path::parent` returns for this path.
pub uninterp spec fn parent_of(p: &Path) -> Option<&Path>;

/// Whether `Path::as_os_str().is_empty()` holds for this path.
pub uninterp spec fn is_empty_path(p: &Path) -> bool;

/// The path `Path::new` makes of this text.
pub uninterp spec fn path_of(s: Seq<char>) -> &'static Path;

/// `Path::parent`, named [`parent_of`].
#[verifier::external_body]
fn path_parent(p: &Path) -> (r: Option<&Path>)
    ensures
        r == parent_of(p),
{
    p.parent()
}

/// `Path::as_os_str().is_empty()`, named [`is_empty_path`].
#[verifier::external_body]
fn path_is_empty(p: &Path) -> (r: bool)
    ensures
        r == is_empty_path(p),
{
    p.as_os_str().is_empty()
}

/// `Path::new` on a static text, named [`path_of`].
#[verifier::external_body]
fn path_new(s: &'static str) -> (r: &'static Path)
    ensures
        r == path_of(s@),
{
    Path::new(s)
}

/// The directory a weight file's sibling `config.json` is read from: the
/// file's parent directory, or the current directory `.` when the path has
/// no (or an empty) parent.
pub fn weights_parent(weights: &Path) -> (r: &Path)
    ensures
        r == (match parent_of(weights) {
            Some(p) => if !is_empty_path(p) {
                p
            } else {
                path_of("."@)
            },
            None => path_of("."@),
        }),
{
    match path_parent(weights) {
        Some(p) => {
            if !path_is_empty(p) {
                p
            } else {
                path_new(".")
            }
        },
        None => path_new("."),
    }
}

/// `key` names a quantized layer's scales tensor.
pub open spec fn is_scales_key(key: Seq<char>) -> bool {
    QUANT_SCALES_SUFFIX@.len() <= key.len() && key.subrange(
        key.len() - QUANT_SCALES_SUFFIX@.len(),
        key.len() as int,
    ) == QUANT_SCALES_SUFFIX@
}

/// Whether a weight map, given by its keys, is (at least partly) quantized:
/// some key ends with `.scales`.
pub fn weights_are_quantized(keys: &Vec<String>) -> (r: bool)
    ensures
        r == exists|i: int| 0 <= i < keys@.len() && is_scales_key((#[trigger] keys@[i])@),
{
    let mut i: usize = 0;
    while i < keys.len()
        invariant
            i <= keys@.len(),
            forall|j: int| 0 <= j < i ==> !is_scales_key((#[trigger] keys@[j])@),
        decreases keys@.len() - i,
    {
        if str_ends_with(keys[i].as_str(), QUANT_SCALES_SUFFIX) {
            return true;
        }
        i = i + 1;
    }
    false
}

/// The message reported for an id that does not fit MLX's `i32` inputs.
pub open spec fn id_overflow_text(id: nat) -> Seq<char> {
    "tokenizer id "@ + decimal(id) + " exceeds i32::MAX for MLX input_ids"@
}

/// Converts a tokenizer id to the `i32` MLX consumes; an id above
/// `i32::MAX` is an [`Error::Mlx`] naming it.
pub fn checked_id(id: u32) -> (r: Result<i32, Error>)
    ensures
        id <= i32::MAX ==> (r matches Ok(x) && x == id),
        id > i32::MAX ==> (r matches Err(Error::Mlx { kind, message }) && kind
            == MlxErrorKind::Runtime && message@ == id_overflow_text(id as nat)),
{
    if id <= 2147483647u32 {
        Ok(id as i32)
    } else {
        let mut m = String::from_str("tokenizer id ");
        let d = u32_to_decimal(id);
        m.append(d.as_str());
        m.append(" exceeds i32::MAX for MLX input_ids");
        Err(Error::Mlx { kind: MlxErrorKind::Runtime, message: m })
    }
}


/// The id rows of a batch encoding.
pub open spec fn id_rows(rows: Seq<(Seq<u32>, Seq<u32>)>) -> Seq<Seq<u32>> {
    rows.map_values(|r: (Seq<u32>, Seq<u32>)| r.0)
}

/// The longest of the first `k` rows.
pub open spec fn max_row_len(rows: Seq<Seq<u32>>, k: nat) -> nat
    decreases k,
{
    if k == 0 {
        0
    } else {
        let m = max_row_len(rows, (k - 1) as nat);
        if rows[k - 1].len() > m {
            rows[k - 1].len()
        } else {
            m
        }
    }
}

/// The first id, in row-major order from row `r`, column `j`, that does not
/// fit in an `i32`.
pub open spec fn first_wide_id(rows: Seq<Seq<u32>>, r: int, j: int) -> Option<u32>
    decreases rows.len() - r, (if 0 <= r < rows.len() {
        rows[r].len() - j
    } else {
        0
    }),
{
    if r < 0 || r >= rows.len() {
        None
    } else if j < 0 || j >= rows[r].len() {
        first_wide_id(rows, r + 1, 0)
    } else if rows[r][j] > i32::MAX {
        Some(rows[r][j])
    } else {
        first_wide_id(rows, r, j + 1)
    }
}

/// The first `k` rows, each right-padded with `pad` to `seq_len`,
/// concatenated.
pub open spec fn padded_ids(rows: Seq<Seq<u32>>, seq_len: nat, pad: i32, k: nat) -> Seq<i32>
    decreases k,
{
    if k == 0 {
        Seq::empty()
    } else {
        let row = rows[k - 1];
        padded_ids(rows, seq_len, pad, (k - 1) as nat) + row.map_values(|x: u32| x as i32)
            + Seq::new((seq_len - row.len()) as nat, |i: int| pad)
    }
}

/// The attention mask of the first `k` padded rows: `1` over real tokens,
/// `0` over padding.
pub open spec fn padded_mask(rows: Seq<Seq<u32>>, seq_len: nat, k: nat) -> Seq<u32>
    decreases k,
{
    if k == 0 {
        Seq::empty()
    } else {
        let row = rows[k - 1];
        padded_mask(rows, seq_len, (k - 1) as nat) + Seq::new(row.len(), |i: int| 1u32) + Seq::new(
            (seq_len - row.len()) as nat,
            |i: int| 0u32,
        )
    }
}

/// The message reported when the padded matrix would not fit in memory
/// indexing.
pub open spec fn matrix_overflow_text(batch: nat, seq_len: nat) -> Seq<char> {
    "batch "@ + decimal(batch) + " * seq_len "@ + decimal(seq_len) + " overflows usize"@
}

/// The row-major `[batch, seq_len]` inputs of one MLX forward pass.
#[derive(Debug)]
pub struct TextBatch {
    /// Token ids, right-padded with the pad id.
    pub input_ids: Vec<i32>,
    /// `1` over real tokens, `0` over padding.
    pub attention_mask: Vec<u32>,
    /// Number of texts.
    pub batch: usize,
    /// The batch's longest row.
    pub seq_len: usize,
}

/// The views of a list of id rows.
pub open spec fn vec_rows_view(rows: Seq<Vec<u32>>) -> Seq<Seq<u32>> {
    rows.map_values(|v: Vec<u32>| v@)
}

/// A row cut to its first `max_len` ids.
pub open spec fn clip_row(row: Seq<u32>, max_len: nat) -> Seq<u32> {
    if row.len() > max_len {
        row.subrange(0, max_len as int)
    } else {
        row
    }
}

/// Every row cut to its first `max_len` ids.
pub open spec fn clipped_rows(rows: Seq<Seq<u32>>, max_len: nat) -> Seq<Seq<u32>> {
    rows.map_values(|row: Seq<u32>| clip_row(row, max_len))
}

/// `count * width`, or `usize::MAX` where that does not fit.
pub open spec fn saturating_bytes(count: nat, width: nat) -> nat {
    if count * width > usize::MAX {
        usize::MAX as nat
    } else {
        count * width
    }
}

/// A failed reservation of one of the two `total`-cell buffers, the `i32`
/// ids or the `u32` mask, four bytes a cell.
pub open spec fn allocation_failed(r: Result<TextBatch, Error>, total: nat) -> bool {
    r matches Err(Error::AllocationFailed { which, requested_bytes, .. }) && ((which@
        == "mlx text input_ids"@ && requested_bytes == saturating_bytes(total, 4)) || (which@
        == "mlx text attention_mask"@ && requested_bytes == saturating_bytes(total, 4)))
}

/// What filling the buffers yields: an out-of-range pad id, then the first
/// out-of-range id (row-major), as [`Error::Mlx`]; else every row
/// right-padded to `seq_len`.
pub open spec fn padding_matches(
    r: Result<TextBatch, Error>,
    rows: Seq<Seq<u32>>,
    seq_len: nat,
    pad_token_id: u32,
) -> bool {
    if pad_token_id > i32::MAX {
        r matches Err(Error::Mlx { kind, message }) && kind == MlxErrorKind::Runtime && message@
            == id_overflow_text(pad_token_id as nat)
    } else if first_wide_id(rows, 0, 0) is Some {
        r matches Err(Error::Mlx { kind, message }) && kind == MlxErrorKind::Runtime && message@
            == id_overflow_text(first_wide_id(rows, 0, 0)->0 as nat)
    } else {
        r matches Ok(tb) && tb.input_ids@ == padded_ids(rows, seq_len, pad_token_id as i32, rows.len())
            && tb.attention_mask@ == padded_mask(rows, seq_len, rows.len()) && tb.batch == rows.len()
            && tb.seq_len == seq_len
    }
}

/// What padding a batch's id rows yields: the `batch * seq_len` overflow as
/// [`Error::Mlx`]; else either a failed buffer reservation or the
/// [`padding_matches`] outcome.
pub open spec fn text_batch_matches(
    r: Result<TextBatch, Error>,
    rows: Seq<Seq<u32>>,
    pad_token_id: u32,
) -> bool {
    let batch = rows.len();
    let seq_len = max_row_len(rows, rows.len());
    if batch * seq_len > usize::MAX {
        r matches Err(Error::Mlx { kind, message }) && kind == MlxErrorKind::Runtime && message@
            == matrix_overflow_text(batch, seq_len)
    } else {
        (batch * seq_len > 0 && allocation_failed(r, batch * seq_len)) || padding_matches(
            r,
            rows,
            seq_len,
            pad_token_id,
        )
    }
}

proof fn lemma_max_row_len(rows: Seq<Seq<u32>>, k: nat, t: int)
    requires
        k <= rows.len(),
        0 <= t < k,
    ensures
        rows[t].len() <= max_row_len(rows, k),
    decreases k,
{
    if t < k - 1 {
        lemma_max_row_len(rows, (k - 1) as nat, t);
    }
}

proof fn lemma_max_row_len_bounded(rows: Seq<Seq<u32>>, k: nat, bound: nat)
    requires
        k <= rows.len(),
        forall|t: int| 0 <= t < k ==> (#[trigger] rows[t]).len() <= bound,
    ensures
        max_row_len(rows, k) <= bound,
    decreases k,
{
    if k > 0 {
        lemma_max_row_len_bounded(rows, (k - 1) as nat, bound);
    }
}

/// `Vec::try_reserve_exact(additional)`, with the `TryReserveError` rendered
/// by its `Display`. The contents stay as they are. Reserving nothing
/// succeeds: std documents that the call does nothing when the capacity
/// already suffices, and a capacity always covers the length. Whether the
/// allocator grants any other request is not stated.
#[verifier::external_body]
fn try_reserve_exact_cells<T>(v: &mut Vec<T>, additional: usize) -> (r: Result<(), String>)
    ensures
        final(v)@ == old(v)@,
        additional == 0 ==> r is Ok,
{
    match v.try_reserve_exact(additional) {
        Ok(()) => Ok(()),
        Err(e) => Err(e.to_string()),
    }
}

/// Cuts every row's ids to their first `max_len` tokens.
pub fn clip_id_rows(rows: &Vec<(Vec<u32>, Vec<u32>)>, max_len: usize) -> (out: Vec<Vec<u32>>)
    ensures
        vec_rows_view(out@) == clipped_rows(id_rows(rows_view(rows@)), max_len as nat),
{
    let ghost g = id_rows(rows_view(rows@));
    let mut out: Vec<Vec<u32>> = Vec::new();
    let mut i: usize = 0;
    while i < rows.len()
        invariant
            g == id_rows(rows_view(rows@)),
            g.len() == rows@.len(),
            i <= rows@.len(),
            vec_rows_view(out@) == clipped_rows(g, max_len as nat).subrange(0, i as int),
        decreases rows@.len() - i,
    {
        let ids = &rows[i].0;
        assert(g[i as int] == ids@);
        let keep = if ids.len() > max_len {
            max_len
        } else {
            ids.len()
        };
        let mut row: Vec<u32> = Vec::new();
        let mut j: usize = 0;
        while j < keep
            invariant
                keep <= ids@.len(),
                j <= keep,
                row@ == ids@.subrange(0, j as int),
            decreases keep - j,
        {
            row.push(ids[j]);
            assert(ids@.subrange(0, j + 1) =~= ids@.subrange(0, j as int).push(ids@[j as int]));
            j = j + 1;
        }
        assert(row@ == clip_row(g[i as int], max_len as nat)) by {
            assert(ids@.subrange(0, ids@.len() as int) =~= ids@);
        }
        let ghost before = out@;
        out.push(row);
        assert(vec_rows_view(out@) =~= vec_rows_view(before).push(row@));
        assert(clipped_rows(g, max_len as nat)[i as int] == clip_row(g[i as int], max_len as nat));
        assert(vec_rows_view(out@) =~= clipped_rows(g, max_len as nat).subrange(0, i + 1));
        i = i + 1;
    }
    assert(clipped_rows(g, max_len as nat).subrange(0, g.len() as int) =~= clipped_rows(
        g,
        max_len as nat,
    ));
    out
}

/// Right-pads a batch's id rows to the longest row under the dynamic
/// right-pad contract (see [`text_batch_matches`]): the `batch * seq_len`
/// product is checked and both buffers are reserved fallibly before any id
/// is converted.
pub fn pad_id_rows(rows: &Vec<Vec<u32>>, pad_token_id: u32) -> (r: Result<TextBatch, Error>)
    ensures
        text_batch_matches(r, vec_rows_view(rows@), pad_token_id),
        r matches Ok(tb) ==> tb.input_ids@.len() == rows@.len() * tb.seq_len
            && tb.attention_mask@.len() == rows@.len() * tb.seq_len,
{
    let ghost g = vec_rows_view(rows@);
    let batch = rows.len();
    let mut seq_len: usize = 0;
    let mut i: usize = 0;
    while i < rows.len()
        invariant
            g == vec_rows_view(rows@),
            g.len() == rows@.len(),
            i <= rows@.len(),
            seq_len == max_row_len(g, i as nat),
        decreases rows@.len() - i,
    {
        assert(g[i as int] == rows@[i as int]@);
        if rows[i].len() > seq_len {
            seq_len = rows[i].len();
        }
        i = i + 1;
    }
    let total = match batch.checked_mul(seq_len) {
        Some(t) => t,
        None => {
            let mut m = String::from_str("batch ");
            let b = usize_to_decimal(batch);
            m.append(b.as_str());
            m.append(" * seq_len ");
            let s = usize_to_decimal(seq_len);
            m.append(s.as_str());
            m.append(" overflows usize");
            return Err(Error::Mlx { kind: MlxErrorKind::Runtime, message: m });
        },
    };
    let mut input_ids: Vec<i32> = Vec::new();
    match try_reserve_exact_cells(&mut input_ids, total) {
        Ok(()) => {},
        Err(cause) => {
            let requested_bytes = match total.checked_mul(4) {
                Some(b) => b,
                None => usize::MAX,
            };
            return Err(
                Error::AllocationFailed { which: "mlx text input_ids", requested_bytes, cause },
            );
        },
    }
    let mut attention_mask: Vec<u32> = Vec::new();
    match try_reserve_exact_cells(&mut attention_mask, total) {
        Ok(()) => {},
        Err(cause) => {
            let requested_bytes = match total.checked_mul(4) {
                Some(b) => b,
                None => usize::MAX,
            };
            return Err(
                Error::AllocationFailed { which: "mlx text attention_mask", requested_bytes, cause },
            );
        },
    }
    let pad = match checked_id(pad_token_id) {
        Ok(p) => p,
        Err(e) => {
            return Err(e);
        },
    };
    let mut r: usize = 0;
    while r < rows.len()
        invariant
            g == vec_rows_view(rows@),
            g.len() == rows@.len(),
            seq_len == max_row_len(g, g.len()),
            pad == pad_token_id as i32,
            pad_token_id <= i32::MAX,
            batch * seq_len <= usize::MAX,
            batch == g.len(),
            r <= rows@.len(),
            first_wide_id(g, 0, 0) == first_wide_id(g, r as int, 0),
            input_ids@ == padded_ids(g, seq_len as nat, pad, r as nat),
            attention_mask@ == padded_mask(g, seq_len as nat, r as nat),
        decreases rows@.len() - r,
    {
        let ids = &rows[r];
        assert(g[r as int] == ids@);
        proof {
            lemma_max_row_len(g, g.len(), r as int);
        }
        let ghost before_ids = input_ids@;
        let ghost before_mask = attention_mask@;
        let mut j: usize = 0;
        while j < ids.len()
            invariant
                g[r as int] == ids@,
                g == vec_rows_view(rows@),
                g.len() == rows@.len(),
                seq_len == max_row_len(g, g.len()),
                pad_token_id <= i32::MAX,
                batch * seq_len <= usize::MAX,
                batch == g.len(),
                0 <= r < g.len(),
                j <= ids@.len(),
                first_wide_id(g, 0, 0) == first_wide_id(g, r as int, j as int),
                input_ids@ == before_ids + ids@.subrange(0, j as int).map_values(|x: u32| x as i32),
                attention_mask@ == before_mask + Seq::new(j as nat, |i: int| 1u32),
            decreases ids@.len() - j,
        {
            let id = match checked_id(ids[j]) {
                Ok(x) => x,
                Err(e) => {
                    assert(first_wide_id(g, r as int, j as int) == Some(ids@[j as int]));
                    return Err(e);
                },
            };
            input_ids.push(id);
            attention_mask.push(1u32);
            assert(ids@.subrange(0, j + 1).map_values(|x: u32| x as i32) =~= ids@.subrange(
                0,
                j as int,
            ).map_values(|x: u32| x as i32).push(id));
            assert(Seq::new((j + 1) as nat, |i: int| 1u32) =~= Seq::new(j as nat, |i: int| 1u32).push(
                1u32,
            ));
            j = j + 1;
        }
        assert(first_wide_id(g, r as int, j as int) == first_wide_id(g, r + 1, 0));
        assert(ids@.subrange(0, ids@.len() as int) =~= ids@);
        let ghost mid_ids = input_ids@;
        let ghost mid_mask = attention_mask@;
        let mut p: usize = ids.len();
        while p < seq_len
            invariant
                ids@.len() <= p <= seq_len,
                input_ids@ == mid_ids + Seq::new((p - ids@.len()) as nat, |i: int| pad),
                attention_mask@ == mid_mask + Seq::new((p - ids@.len()) as nat, |i: int| 0u32),
            decreases seq_len - p,
        {
            input_ids.push(pad);
            attention_mask.push(0u32);
            assert(Seq::new((p + 1 - ids@.len()) as nat, |i: int| pad) =~= Seq::new(
                (p - ids@.len()) as nat,
                |i: int| pad,
            ).push(pad));
            assert(Seq::new((p + 1 - ids@.len()) as nat, |i: int| 0u32) =~= Seq::new(
                (p - ids@.len()) as nat,
                |i: int| 0u32,
            ).push(0u32));
            p = p + 1;
        }
        assert(input_ids@ =~= padded_ids(g, seq_len as nat, pad, (r + 1) as nat));
        assert(attention_mask@ =~= padded_mask(g, seq_len as nat, (r + 1) as nat));
        r = r + 1;
    }
    proof {
        assert forall|t: int| 0 <= t < g.len() implies (#[trigger] g[t]).len() <= seq_len by {
            lemma_max_row_len(g, g.len(), t);
        }
        law_padded_rows_layout(g, seq_len as nat, pad, g.len());
    }
    Ok(TextBatch { input_ids, attention_mask, batch, seq_len })
}

/// What building a text batch yields: a stored truncation that encoding
/// would panic on as [`Error::Tokenizer`]; else, whatever the tokenizer
/// returned, its failure as [`Error::Tokenizer`] when the texts have no
/// batch encoding, or the
/// [`text_batch_matches`] outcome of the id rows of an encoding the tokenizer
/// can give for these texts, one row per text, each cut to `max_seq_len` ids.
pub open spec fn built_batch_matches(
    r: Result<TextBatch, Error>,
    tokenizer: Tokenizer,
    texts: Seq<Seq<char>>,
    pad_token_id: u32,
    max_seq_len: usize,
) -> bool {
    match truncation_error(tokenizer) {
        Some(m) => r matches Err(Error::Tokenizer(x)) && x@ == m,
        None => {
            ||| (r matches Err(Error::Tokenizer(_)) && forall|rows: Seq<(Seq<u32>, Seq<u32>)>|
                !#[trigger] batch_encodes_to(tokenizer, texts, rows))
            ||| exists|rows: Seq<(Seq<u32>, Seq<u32>)>|
                {
                    &&& #[trigger] batch_encodes_to(tokenizer, texts, rows)
                    &&& rows.len() == texts.len()
                    &&& text_batch_matches(
                        r,
                        clipped_rows(id_rows(rows), max_seq_len as nat),
                        pad_token_id,
                    )
                }
        },
    }
}

/// Checks the tokenizer's stored truncation, tokenizes `texts` (special
/// tokens added, the tokenizer's own padding disabled by the caller), cuts
/// every row to its first `max_seq_len` ids, and right-pads the rows to the
/// batch's longest one with `pad_token_id` (see [`built_batch_matches`]); a
/// tokenizer failure is a [`Error::Tokenizer`]. A success holds one row of at
/// most `max_seq_len` ids per text.
pub fn build_text_batch(
    tokenizer: &Tokenizer,
    texts: &[&str],
    pad_token_id: u32,
    max_seq_len: usize,
) -> (r: Result<TextBatch, Error>)
    ensures
        built_batch_matches(r, *tokenizer, texts_view(texts@), pad_token_id, max_seq_len),
        r matches Ok(tb) ==> tb.batch == texts@.len() && tb.seq_len <= max_seq_len
            && tb.input_ids@.len() == texts@.len() * tb.seq_len && tb.attention_mask@.len()
            == texts@.len() * tb.seq_len,
{
    match crate::tokenize::check_truncation(tokenizer) {
        Ok(()) => {},
        Err(e) => {
            return Err(e);
        },
    }
    match crate::tokenize::encode_batch_rows(tokenizer, texts) {
        Err(m) => Err(Error::Tokenizer(m)),
        Ok(rows) => {
            let clipped = clip_id_rows(&rows, max_seq_len);
            let r = pad_id_rows(&clipped, pad_token_id);
            proof {
                let g = id_rows(rows_view(rows@));
                let c = clipped_rows(g, max_seq_len as nat);
                assert(vec_rows_view(clipped@) == c);
                assert(text_batch_matches(r, clipped_rows(g, max_seq_len as nat), pad_token_id));
                assert(batch_encodes_to(*tokenizer, texts_view(texts@), rows_view(rows@)));
                assert forall|t: int| 0 <= t < c.len() implies (#[trigger] c[t]).len()
                    <= max_seq_len by {}
                lemma_max_row_len_bounded(c, c.len(), max_seq_len as nat);
            }
            r
        },
    }
}

/// Plans one MLX batched call over `n` texts: no chunk for no input,
/// [`Error::BatchTooLarge`] above `max_batch_size`, else consecutive chunks
/// of `batch_size` texts, each run as one forward pass.
pub fn plan_text_batch(n: usize, max_batch_size: usize, batch_size: usize) -> (r: Result<
    Vec<core::ops::Range<usize>>,
    Error,
>)
    requires
        batch_size >= 1,
    ensures
        n == 0 ==> (r matches Ok(v) && v@.len() == 0),
        n > 0 && n > max_batch_size ==> (r matches Err(Error::BatchTooLarge { got, max }) && got
            == n && max == max_batch_size),
        n > 0 && n <= max_batch_size ==> (r matches Ok(v) && crate::text_enc::chunks_ok(
            v@,
            n as int,
            batch_size as int,
        )),
{
    if n == 0 {
        return Ok(Vec::new());
    }
    if n > max_batch_size {
        return Err(Error::BatchTooLarge { got: n, max: max_batch_size });
    }
    Ok(crate::text_enc::chunk_ranges(n, batch_size))
}


/// Padding law: with every row at most `seq_len` long, the padded ids and
/// mask of `k` rows are `k * seq_len` long, row `r` occupies positions
/// `[r * seq_len, (r + 1) * seq_len)`, its real ids come first with mask
/// `1`, and the pad id follows with mask `0`.
pub proof fn law_padded_rows_layout(rows: Seq<Seq<u32>>, seq_len: nat, pad: i32, k: nat)
    requires
        k <= rows.len(),
        forall|t: int| 0 <= t < k ==> (#[trigger] rows[t]).len() <= seq_len,
    ensures
        padded_ids(rows, seq_len, pad, k).len() == k * seq_len,
        padded_mask(rows, seq_len, k).len() == k * seq_len,
        forall|r: int, j: int|
            0 <= r < k && 0 <= j < seq_len ==> {
                &&& #[trigger] padded_ids(rows, seq_len, pad, k)[r * seq_len + j] == (if j
                    < rows[r].len() {
                    rows[r][j] as i32
                } else {
                    pad
                })
                &&& padded_mask(rows, seq_len, k)[r * seq_len + j] == (if j < rows[r].len() {
                    1u32
                } else {
                    0u32
                })
            },
    decreases k,
{
    if k > 0 {
        let k1 = (k - 1) as nat;
        law_padded_rows_layout(rows, seq_len, pad, k1);
        let prev_ids = padded_ids(rows, seq_len, pad, k1);
        let prev_mask = padded_mask(rows, seq_len, k1);
        let row = rows[k - 1];
        assert(k * seq_len == k1 * seq_len + seq_len) by (nonlinear_arith)
            requires
                k == k1 + 1,
        ;
        assert forall|r: int, j: int| 0 <= r < k && 0 <= j < seq_len implies {
            &&& #[trigger] padded_ids(rows, seq_len, pad, k)[r * seq_len + j] == (if j
                < rows[r].len() {
                rows[r][j] as i32
            } else {
                pad
            })
            &&& padded_mask(rows, seq_len, k)[r * seq_len + j] == (if j < rows[r].len() {
                1u32
            } else {
                0u32
            })
        } by {
            if r < k - 1 {
                assert(r * seq_len + j < k1 * seq_len) by (nonlinear_arith)
                    requires
                        0 <= r < k1,
                        0 <= j < seq_len,
                ;
                assert(0 <= r * seq_len + j) by (nonlinear_arith)
                    requires
                        0 <= r,
                        0 <= j,
                ;
                let idx = r * seq_len + j;
                assert(padded_ids(rows, seq_len, pad, k)[idx] == prev_ids[idx]);
                assert(padded_mask(rows, seq_len, k)[idx] == prev_mask[idx]);
            } else {
                assert(r * seq_len == k1 * seq_len) by (nonlinear_arith)
                    requires
                        r == k1,
                ;
                let idx = r * seq_len + j;
                let mapped = row.map_values(|x: u32| x as i32);
                let pads = Seq::new((seq_len - row.len()) as nat, |i: int| pad);
                let ones = Seq::new(row.len(), |i: int| 1u32);
                let zeros = Seq::new((seq_len - row.len()) as nat, |i: int| 0u32);
                assert(padded_ids(rows, seq_len, pad, k) == prev_ids + mapped + pads);
                assert(padded_mask(rows, seq_len, k) == prev_mask + ones + zeros);
                if j < row.len() {
                    assert((prev_ids + mapped + pads)[idx] == mapped[j]);
                    assert((prev_mask + ones + zeros)[idx] == ones[j]);
                } else {
                    assert((prev_ids + mapped + pads)[idx] == pads[j - row.len()]);
                    assert((prev_mask + ones + zeros)[idx] == zeros[j - row.len()]);
                }
            }
        }
    }
}

/// Batch building law: when the stored truncation is safe and the texts
/// have a batch encoding, building the batch never fails on the tokenizer
/// and never refuses a long text: the result is the [`text_batch_matches`]
/// outcome of the id rows of an encoding the tokenizer gives for these
/// texts, each cut to its first `max_seq_len` ids, so its only errors are
/// [`Error::Mlx`] and [`Error::AllocationFailed`].
pub proof fn law_encodable_batch_is_cut_and_padded(
    r: Result<TextBatch, Error>,
    tokenizer: Tokenizer,
    texts: Seq<Seq<char>>,
    pad_token_id: u32,
    max_seq_len: usize,
    rows0: Seq<(Seq<u32>, Seq<u32>)>,
)
    requires
        built_batch_matches(r, tokenizer, texts, pad_token_id, max_seq_len),
        truncation_error(tokenizer) is None,
        batch_encodes_to(tokenizer, texts, rows0),
    ensures
        exists|rows: Seq<(Seq<u32>, Seq<u32>)>|
            {
                &&& #[trigger] batch_encodes_to(tokenizer, texts, rows)
                &&& rows.len() == texts.len()
                &&& text_batch_matches(
                    r,
                    clipped_rows(id_rows(rows), max_seq_len as nat),
                    pad_token_id,
                )
            },
        r matches Err(e) ==> (e is Mlx || e is AllocationFailed),
{
}

} // verus!
