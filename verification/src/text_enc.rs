//! The text-encoder logic around the tokenizer and the inference session:
//! batch validation and chunking, the flattening of a tokenized chunk into
//! the model's input tensors, the output-shape check, and the tokenizer
//! configuration.

use core::ops::Range;
use tokenizers::Tokenizer;
use vstd::prelude::*;
use vstd::string::StringExecFns;
use crate::error::Error;
use crate::options::BatchOptions;
use crate::textfmt::{decimal, usize_to_decimal};
use crate::tokenize::{
    added_tokens_of, batch_encodes_to, padded_tokenizer, rows_view, texts_view, token_id_of,
    truncated_tokenizer, truncation_error,
};

verus! {

/// The embedding width the text encoder's output must have.
pub const EMBED_DIM: usize = 768;

/// The tokenizer's padding token.
pub const PAD_TOKEN: &'static str = "<pad>";

/// The first empty text at or after `i`.
pub open spec fn first_empty_from(texts: Seq<Seq<char>>, i: int) -> Option<int>
    decreases texts.len() - i,
{
    if i < 0 || i >= texts.len() {
        None
    } else if texts[i].len() == 0 {
        Some(i)
    } else {
        first_empty_from(texts, i + 1)
    }
}

/// Number of chunks of `chunk` inputs covering `n` inputs.
pub open spec fn chunk_count(n: int, chunk: int) -> int {
    (n + chunk - 1) / chunk
}

/// End (exclusive) of chunk `j`.
pub open spec fn chunk_end(j: int, chunk: int, n: int) -> int {
    if (j + 1) * chunk < n {
        (j + 1) * chunk
    } else {
        n
    }
}

/// What a batched embedding call is planned as: no chunk for no input;
/// [`Error::BatchTooLarge`] above `max_batch_size`; the first empty text as
/// [`Error::Batch`] wrapping [`Error::EmptyText`]; else consecutive chunks of
/// `batch_size` inputs.
pub open spec fn batch_plan_matches(
    r: Result<Vec<Range<usize>>, Error>,
    texts: Seq<Seq<char>>,
    max_batch_size: usize,
    chunk: usize,
) -> bool {
    if texts.len() == 0 {
        r matches Ok(v) && v@.len() == 0
    } else if texts.len() > max_batch_size {
        r matches Err(Error::BatchTooLarge { got, max }) && got == texts.len() && max
            == max_batch_size
    } else if first_empty_from(texts, 0) is Some {
        r matches Err(Error::Batch { index, source }) && index == first_empty_from(
            texts,
            0,
        )->0 && *source matches Error::EmptyText
    } else {
        r matches Ok(v) && chunks_ok(v@, texts.len() as int, chunk as int)
    }
}

proof fn lemma_chunk_count_pos(n: int, chunk: int)
    requires
        n >= 1,
        chunk >= 1,
    ensures
        chunk_count(n, chunk) >= 1,
{
    assert((n + chunk - 1) / chunk >= 1) by (nonlinear_arith)
        requires
            n >= 1,
            chunk >= 1,
    {
        vstd::arithmetic::div_mod::lemma_fundamental_div_mod(n + chunk - 1, chunk);
    }
}

proof fn lemma_chunks(n: int, chunk: int, j: int)
    requires
        n >= 1,
        chunk >= 1,
        0 <= j < chunk_count(n, chunk),
    ensures
        chunk_count(n, chunk) >= 1,
        0 <= j * chunk < n,
        (j + 1) * chunk == j * chunk + chunk,
        ((j + 1) * chunk >= n) <==> (j == chunk_count(n, chunk) - 1),
{
    let q = chunk_count(n, chunk);
    assert(q * chunk >= n && (q - 1) * chunk < n && q >= 1) by (nonlinear_arith)
        requires
            n >= 1,
            chunk >= 1,
            q == (n + chunk - 1) / chunk,
    {
        vstd::arithmetic::div_mod::lemma_fundamental_div_mod(n + chunk - 1, chunk);
    }
    assert((j + 1) * chunk == j * chunk + chunk) by (nonlinear_arith);
    assert(0 <= j * chunk <= (q - 1) * chunk) by (nonlinear_arith)
        requires
            0 <= j <= q - 1,
            chunk >= 1,
    ;
    if j < q - 1 {
        assert((j + 1) * chunk <= (q - 1) * chunk) by (nonlinear_arith)
            requires
                0 <= j + 1 <= q - 1,
                chunk >= 1,
        ;
    }
}

/// The chunks `v` split `n` inputs into: chunk `j` is
/// `[j * chunk, min((j + 1) * chunk, n))`.
pub open spec fn chunks_ok(v: Seq<Range<usize>>, n: int, chunk: int) -> bool {
    &&& v.len() == chunk_count(n, chunk)
    &&& forall|j: int|
        0 <= j < v.len() ==> (#[trigger] v[j]).start == j * chunk && v[j].end == chunk_end(
            j,
            chunk,
            n,
        )
}

/// Splits `n` inputs into consecutive chunks of `chunk` inputs, the last one
/// possibly shorter.
pub fn chunk_ranges(n: usize, chunk: usize) -> (r: Vec<Range<usize>>)
    requires
        chunk >= 1,
    ensures
        chunks_ok(r@, n as int, chunk as int),
{
    let mut out: Vec<Range<usize>> = Vec::new();
    if n == 0 {
        assert((0 + chunk - 1) / (chunk as int) == 0) by (nonlinear_arith)
            requires
                chunk >= 1,
        ;
        return out;
    }
    let mut base: usize = 0;
    let ghost mut j: int = 0;
    proof {
        lemma_chunk_count_pos(n as int, chunk as int);
        lemma_chunks(n as int, chunk as int, 0);
        assert(0 * chunk == 0) by (nonlinear_arith);
    }
    loop
        invariant_except_break
            out@.len() == j,
        invariant
            n >= 1,
            chunk >= 1,
            0 <= j < chunk_count(n as int, chunk as int),
            base == j * chunk,
            base < n,
            forall|t: int|
                0 <= t < out@.len() ==> (#[trigger] out@[t]).start == t * chunk && out@[t].end
                    == chunk_end(t, chunk as int, n as int),
        ensures
            out@.len() == chunk_count(n as int, chunk as int),
            forall|t: int|
                0 <= t < out@.len() ==> (#[trigger] out@[t]).start == t * chunk && out@[t].end
                    == chunk_end(t, chunk as int, n as int),
        decreases chunk_count(n as int, chunk as int) - j,
    {
        proof {
            lemma_chunks(n as int, chunk as int, j);
        }
        let end = if chunk < n - base {
            base + chunk
        } else {
            n
        };
        out.push(base..end);
        if end >= n {
            break ;
        }
        base = base + chunk;
        proof {
            j = j + 1;
        }
    }
    out
}

/// Chunking law: the chunks partition the inputs in order. The first starts
/// at `0`, each ends where the next starts, the last ends at `n`, and every
/// chunk holds between one and `chunk` inputs.
pub proof fn law_chunks_partition_inputs(n: int, chunk: int, j: int)
    requires
        n >= 1,
        chunk >= 1,
        0 <= j < chunk_count(n, chunk),
    ensures
        0 * chunk == 0,
        j * chunk < chunk_end(j, chunk, n) <= j * chunk + chunk,
        j + 1 < chunk_count(n, chunk) ==> chunk_end(j, chunk, n) == (j + 1) * chunk,
        j + 1 == chunk_count(n, chunk) ==> chunk_end(j, chunk, n) == n,
{
    lemma_chunks(n, chunk, j);
    assert(0 * chunk == 0) by (nonlinear_arith);
}

/// Validates a batched embedding call and splits it into the chunks that
/// are run one inference each (see [`batch_plan_matches`]).
pub fn batch_chunks(texts: &[&str], opts: &BatchOptions) -> (r: Result<Vec<Range<usize>>, Error>)
    requires
        opts.spec_batch_size() >= 1,
    ensures
        batch_plan_matches(r, texts_view(texts@), opts.spec_max_batch_size(), opts.spec_batch_size()),
{
    let ghost tv = texts_view(texts@);
    if texts.len() == 0 {
        return Ok(Vec::new());
    }
    let max = opts.max_batch_size();
    if texts.len() > max {
        return Err(Error::BatchTooLarge { got: texts.len(), max });
    }
    let mut i: usize = 0;
    while i < texts.len()
        invariant
            tv == texts_view(texts@),
            tv.len() == texts@.len(),
            0 < texts@.len() <= max,
            max == opts.spec_max_batch_size(),
            i <= texts@.len(),
            first_empty_from(tv, 0) == first_empty_from(tv, i as int),
        decreases texts@.len() - i,
    {
        assert(tv[i as int] == texts@[i as int]@);
        if texts[i].is_empty() {
            assert(first_empty_from(tv, i as int) == Some(i as int));
            assert(tv.len() > 0 && tv.len() <= max);
            return Err(Error::Batch { index: i, source: Box::new(Error::EmptyText) });
        }
        i = i + 1;
    }
    Ok(chunk_ranges(texts.len(), opts.batch_size()))
}

/// The ids of the first `k` rows, widened to `i64`, concatenated.
pub open spec fn flat_ids(rows: Seq<(Seq<u32>, Seq<u32>)>, k: nat) -> Seq<i64>
    decreases k,
{
    if k == 0 {
        Seq::empty()
    } else {
        flat_ids(rows, (k - 1) as nat) + rows[k - 1].0.map_values(|x: u32| x as i64)
    }
}

/// The attention masks of the first `k` rows, widened to `i64`,
/// concatenated.
pub open spec fn flat_mask(rows: Seq<(Seq<u32>, Seq<u32>)>, k: nat) -> Seq<i64>
    decreases k,
{
    if k == 0 {
        Seq::empty()
    } else {
        flat_mask(rows, (k - 1) as nat) + rows[k - 1].1.map_values(|x: u32| x as i64)
    }
}

/// The first row at or after `i` whose ids or mask is not `seq_len` long.
pub open spec fn first_uneven_from(rows: Seq<(Seq<u32>, Seq<u32>)>, seq_len: int, i: int) -> Option<
    int,
>
    decreases rows.len() - i,
{
    if i < 0 || i >= rows.len() {
        None
    } else if rows[i].0.len() != seq_len || rows[i].1.len() != seq_len {
        Some(i)
    } else {
        first_uneven_from(rows, seq_len, i + 1)
    }
}

/// The message reported for an uneven row.
pub open spec fn uneven_row_text(row: nat, ids: nat, mask: nat, expected: nat) -> Seq<char> {
    "tokenizer produced uneven row "@ + decimal(row) + " (ids="@ + decimal(ids) + ", mask="@
        + decimal(mask) + ", expected "@ + decimal(expected) + ")"@
}

/// The model inputs of one chunk: row-major `[batch, seq_len]` ids and
/// attention mask.
#[derive(Debug)]
pub struct ChunkInputs {
    /// Token ids, row-major.
    pub input_ids: Vec<i64>,
    /// Attention mask, row-major.
    pub attention_mask: Vec<i64>,
    /// Number of inputs in the chunk.
    pub batch: usize,
    /// Common row length.
    pub seq_len: usize,
}

/// What flattening the rows of a chunk yields: with no row or an empty first
/// row, [`Error::EmptyText`] at the chunk's base index; with a row whose ids
/// or mask differ in length from the first row's ids, a tokenizer error at
/// that row's index; else the concatenated ids and masks.
pub open spec fn chunk_matches(
    r: Result<ChunkInputs, Error>,
    rows: Seq<(Seq<u32>, Seq<u32>)>,
    batch: usize,
    base_index: usize,
) -> bool {
    let seq_len = if rows.len() == 0 {
        0
    } else {
        rows[0].0.len() as int
    };
    if seq_len == 0 {
        r matches Err(Error::Batch { index, source }) && index == base_index
            && *source matches Error::EmptyText
    } else if first_uneven_from(rows, seq_len, 0) is Some {
        let i = first_uneven_from(rows, seq_len, 0)->0;
        r matches Err(Error::Batch { index, source }) && index == base_index + i && (
        *source matches Error::Tokenizer(m) && m@ == uneven_row_text(
            i as nat,
            rows[i].0.len(),
            rows[i].1.len(),
            seq_len as nat,
        ))
    } else {
        r matches Ok(c) && c.input_ids@ == flat_ids(rows, rows.len()) && c.attention_mask@
            == flat_mask(rows, rows.len()) && c.batch == batch && c.seq_len == seq_len
    }
}

proof fn lemma_first_uneven_none(rows: Seq<(Seq<u32>, Seq<u32>)>, seq_len: int, i: int, t: int)
    requires
        0 <= i <= t < rows.len(),
        first_uneven_from(rows, seq_len, i) is None,
    ensures
        rows[t].0.len() == seq_len && rows[t].1.len() == seq_len,
    decreases t - i,
{
    if i < t {
        lemma_first_uneven_none(rows, seq_len, i + 1, t);
    }
}

/// Flattens a tokenized chunk into the model's input tensors (see
/// [`chunk_matches`]); errors carry the index of the input they pin to.
pub fn flatten_chunk(rows: &Vec<(Vec<u32>, Vec<u32>)>, batch: usize, base_index: usize) -> (r:
    Result<ChunkInputs, Error>)
    requires
        base_index + rows@.len() <= usize::MAX,
    ensures
        chunk_matches(r, rows_view(rows@), batch, base_index),
        r matches Ok(c) ==> c.input_ids@.len() == rows@.len() * c.seq_len
            && c.attention_mask@.len() == rows@.len() * c.seq_len,
{
    let ghost rv = rows_view(rows@);
    let seq_len = if rows.len() == 0 {
        0
    } else {
        rows[0].0.len()
    };
    if seq_len == 0 {
        return Err(Error::Batch { index: base_index, source: Box::new(Error::EmptyText) });
    }
    assert(rv[0] == (rows@[0].0@, rows@[0].1@));
    let mut input_ids: Vec<i64> = Vec::new();
    let mut attention_mask: Vec<i64> = Vec::new();
    let mut i: usize = 0;
    while i < rows.len()
        invariant
            rv == rows_view(rows@),
            rv.len() == rows@.len(),
            base_index + rows@.len() <= usize::MAX,
            seq_len >= 1,
            seq_len == rv[0].0.len(),
            i <= rows@.len(),
            first_uneven_from(rv, seq_len as int, 0) == first_uneven_from(rv, seq_len as int, i as int),
            input_ids@ == flat_ids(rv, i as nat),
            attention_mask@ == flat_mask(rv, i as nat),
        decreases rows@.len() - i,
    {
        let ids = &rows[i].0;
        let mask = &rows[i].1;
        assert(rv[i as int] == (ids@, mask@));
        if ids.len() != seq_len || mask.len() != seq_len {
            let mut m = String::from_str("tokenizer produced uneven row ");
            let s1 = usize_to_decimal(i);
            m.append(s1.as_str());
            m.append(" (ids=");
            let s2 = usize_to_decimal(ids.len());
            m.append(s2.as_str());
            m.append(", mask=");
            let s3 = usize_to_decimal(mask.len());
            m.append(s3.as_str());
            m.append(", expected ");
            let s4 = usize_to_decimal(seq_len);
            m.append(s4.as_str());
            m.append(")");
            return Err(
                Error::Batch { index: base_index + i, source: Box::new(Error::Tokenizer(m)) },
            );
        }
        let mut j: usize = 0;
        while j < seq_len
            invariant
                j <= seq_len,
                ids@.len() == seq_len,
                mask@.len() == seq_len,
                input_ids@ == flat_ids(rv, i as nat) + ids@.subrange(0, j as int).map_values(
                    |x: u32| x as i64,
                ),
                attention_mask@ == flat_mask(rv, i as nat) + mask@.subrange(
                    0,
                    j as int,
                ).map_values(|x: u32| x as i64),
            decreases seq_len - j,
        {
            input_ids.push(ids[j] as i64);
            attention_mask.push(mask[j] as i64);
            assert(ids@.subrange(0, j + 1).map_values(|x: u32| x as i64) =~= ids@.subrange(
                0,
                j as int,
            ).map_values(|x: u32| x as i64).push(ids@[j as int] as i64));
            assert(mask@.subrange(0, j + 1).map_values(|x: u32| x as i64) =~= mask@.subrange(
                0,
                j as int,
            ).map_values(|x: u32| x as i64).push(mask@[j as int] as i64));
            j = j + 1;
        }
        assert(ids@.subrange(0, seq_len as int) =~= ids@);
        assert(mask@.subrange(0, seq_len as int) =~= mask@);
        i = i + 1;
    }
    proof {
        assert forall|t: int| 0 <= t < rv.len() implies (#[trigger] rv[t]).0.len() == seq_len
            && rv[t].1.len() == seq_len by {
            lemma_first_uneven_none(rv, seq_len as int, 0, t);
        }
        law_flattened_rows_layout(rv, seq_len as nat, rv.len());
    }
    Ok(ChunkInputs { input_ids, attention_mask, batch, seq_len })
}

/// What preparing a chunk yields: a stored truncation that encoding would
/// panic on, as [`Error::Batch`] at the chunk's base index wrapping
/// [`Error::Tokenizer`]; else, whatever the tokenizer returned, its failure
/// wrapped the same way when the texts have no batch encoding, or the
/// [`chunk_matches`] outcome of rows the
/// tokenizer can give for these texts, one per text, each with as many mask
/// entries as ids.
pub open spec fn chunk_outcome(
    r: Result<ChunkInputs, Error>,
    tokenizer: Tokenizer,
    texts: Seq<Seq<char>>,
    base_index: usize,
) -> bool {
    match truncation_error(tokenizer) {
        Some(m) => r matches Err(Error::Batch { index, source }) && index == base_index && (
        *source matches Error::Tokenizer(x) && x@ == m),
        None => {
            ||| ((r matches Err(Error::Batch { index, source }) && index == base_index
                && *source matches Error::Tokenizer(_)) && forall|
                rows: Seq<(Seq<u32>, Seq<u32>)>,
            | !#[trigger] batch_encodes_to(tokenizer, texts, rows))
            ||| exists|rows: Seq<(Seq<u32>, Seq<u32>)>|
                {
                    &&& #[trigger] batch_encodes_to(tokenizer, texts, rows)
                    &&& rows.len() == texts.len()
                    &&& forall|i: int|
                        0 <= i < rows.len() ==> (#[trigger] rows[i]).1.len() == rows[i].0.len()
                    &&& chunk_matches(r, rows, texts.len() as usize, base_index)
                }
        },
    }
}

/// Tokenizes one chunk of texts and flattens it into the model's inputs (see
/// [`chunk_outcome`]): the tokenizer's truncation is checked, then a
/// tokenizer failure is a [`Error::Batch`] at the chunk's base index, the
/// rest as [`flatten_chunk`]. A success holds one `seq_len` row per text.
pub fn prepare_chunk(tokenizer: &Tokenizer, group: &[&str], base_index: usize) -> (r: Result<
    ChunkInputs,
    Error,
>)
    requires
        base_index + group@.len() <= usize::MAX,
    ensures
        chunk_outcome(r, *tokenizer, texts_view(group@), base_index),
        r matches Ok(c) ==> c.batch == group@.len() && c.input_ids@.len() == group@.len()
            * c.seq_len && c.attention_mask@.len() == group@.len() * c.seq_len,
{
    match crate::tokenize::check_truncation(tokenizer) {
        Ok(()) => {},
        Err(e) => {
            return Err(Error::Batch { index: base_index, source: Box::new(e) });
        },
    }
    match crate::tokenize::encode_batch_rows(tokenizer, group) {
        Err(m) => Err(Error::Batch { index: base_index, source: Box::new(Error::Tokenizer(m)) }),
        Ok(rows) => {
            let r = flatten_chunk(&rows, group.len(), base_index);
            proof {
                let rv = rows_view(rows@);
                assert forall|i: int| 0 <= i < rv.len() implies (#[trigger] rv[i]).1.len()
                    == rv[i].0.len() by {
                    assert(rv[i] == (rows@[i].0@, rows@[i].1@));
                }
                assert(batch_encodes_to(*tokenizer, texts_view(group@), rv));
            }
            r
        },
    }
}

/// The output tensor's shape must be `[batch, EMBED_DIM]`: another rank is
/// [`Error::OutputRank`], another shape [`Error::SessionShapeMismatch`],
/// both wrapped in [`Error::Batch`] at the chunk's base index.
pub fn check_output_shape(shape: &Vec<i64>, batch: usize, base_index: usize) -> (r: Result<
    (),
    Error,
>)
    ensures
        shape@.len() != 2 ==> (r matches Err(Error::Batch { index, source }) && index
            == base_index && (*source matches Error::OutputRank { rank, shape: s } && rank
            == shape@.len() && s@ == shape@)),
        shape@.len() == 2 && (shape@[0] != batch as i64 || shape@[1] != EMBED_DIM as i64) ==> (
        r matches Err(Error::Batch { index, source }) && index == base_index && (
        *source matches Error::SessionShapeMismatch { input, expected, got } && input@
            == "sentence_embedding"@ && expected@ == "[batch, 768]"@ && got@ == shape@)),
        shape@.len() == 2 && shape@[0] == batch as i64 && shape@[1] == EMBED_DIM as i64 ==> r is Ok,
{
    if shape.len() != 2 {
        return Err(
            Error::Batch {
                index: base_index,
                source: Box::new(Error::OutputRank { rank: shape.len(), shape: shape.clone() }),
            },
        );
    }
    if shape[0] != batch as i64 || shape[1] != EMBED_DIM as i64 {
        return Err(
            Error::Batch {
                index: base_index,
                source: Box::new(
                    Error::SessionShapeMismatch {
                        input: "sentence_embedding",
                        expected: "[batch, 768]",
                        got: shape.clone(),
                    },
                ),
            },
        );
    }
    Ok(())
}

/// The message reported when the tokenizer has no padding token.
pub open spec fn missing_pad_text() -> Seq<char> {
    "loaded tokenizer has no `<pad>` token"@
}

/// The message reported for a zero `max_seq_len`.
pub open spec fn zero_max_seq_len_text() -> Seq<char> {
    "max_seq_len must be > 0 (BatchOptions::with_max_seq_len)"@
}

/// The message reported when `max_seq_len` cannot hold the special tokens
/// the tokenizer adds.
pub open spec fn short_max_seq_len_text(max_seq_len: nat, added: nat) -> Seq<char> {
    "max_seq_len "@ + decimal(max_seq_len) + " is below the "@ + decimal(added)
        + " special tokens the tokenizer adds"@
}

/// The tokenizer padded batch-longest on the right with its `<pad>` id.
pub open spec fn pad_configured(tokenizer: Tokenizer) -> Tokenizer {
    padded_tokenizer(tokenizer, token_id_of(tokenizer, PAD_TOKEN@)->0, PAD_TOKEN@)
}

/// The tokenizer [`configure_tokenizer`] produces: padded with its `<pad>`
/// id, then truncated to `max_seq_len`.
pub open spec fn configured_tokenizer(tokenizer: Tokenizer, max_seq_len: usize) -> Tokenizer {
    truncated_tokenizer(pad_configured(tokenizer), max_seq_len)
}

/// What configuring a tokenizer yields: a tokenizer without `<pad>`, a zero
/// `max_seq_len`, or a `max_seq_len` below the special tokens the padded
/// tokenizer adds is an [`Error::Tokenizer`]; else the
/// [`configured_tokenizer`].
pub open spec fn configure_matches(
    r: Result<Tokenizer, Error>,
    tokenizer: Tokenizer,
    max_seq_len: usize,
) -> bool {
    if token_id_of(tokenizer, PAD_TOKEN@) is None {
        r matches Err(Error::Tokenizer(m)) && m@ == missing_pad_text()
    } else if max_seq_len == 0 {
        r matches Err(Error::Tokenizer(m)) && m@ == zero_max_seq_len_text()
    } else if max_seq_len < added_tokens_of(pad_configured(tokenizer)) {
        r matches Err(Error::Tokenizer(m)) && m@ == short_max_seq_len_text(
            max_seq_len as nat,
            added_tokens_of(pad_configured(tokenizer)) as nat,
        )
    } else {
        r matches Ok(t) && t == configured_tokenizer(tokenizer, max_seq_len)
    }
}

/// Configures batch-longest right padding with the tokenizer's `<pad>` id
/// and right truncation to `max_seq_len` (see [`configure_matches`]).
pub fn configure_tokenizer(tokenizer: Tokenizer, max_seq_len: usize) -> (r: Result<
    Tokenizer,
    Error,
>)
    ensures
        configure_matches(r, tokenizer, max_seq_len),
{
    let mut tokenizer = tokenizer;
    let pad_id = match crate::tokenize::token_to_id(&tokenizer, PAD_TOKEN) {
        Some(id) => id,
        None => {
            return Err(Error::Tokenizer(String::from_str("loaded tokenizer has no `<pad>` token")));
        },
    };
    crate::tokenize::set_batch_longest_padding(&mut tokenizer, pad_id, PAD_TOKEN);
    if max_seq_len == 0 {
        return Err(
            Error::Tokenizer(
                String::from_str("max_seq_len must be > 0 (BatchOptions::with_max_seq_len)"),
            ),
        );
    }
    let added = crate::tokenize::added_special_tokens(&tokenizer);
    if max_seq_len < added {
        let mut m = String::from_str("max_seq_len ");
        let s1 = usize_to_decimal(max_seq_len);
        m.append(s1.as_str());
        m.append(" is below the ");
        let s2 = usize_to_decimal(added);
        m.append(s2.as_str());
        m.append(" special tokens the tokenizer adds");
        return Err(Error::Tokenizer(m));
    }
    crate::tokenize::set_right_truncation(&mut tokenizer, max_seq_len);
    Ok(tokenizer)
}

/// The single-text embedding guard: an empty text is [`Error::EmptyText`].
pub fn check_text_nonempty(text: &str) -> (r: Result<(), Error>)
    ensures
        text@.len() == 0 ==> r matches Err(Error::EmptyText),
        text@.len() > 0 ==> r is Ok,
{
    if text.is_empty() {
        Err(Error::EmptyText)
    } else {
        Ok(())
    }
}

/// The success or error of a result, without its value.
pub open spec fn outcome_of<T>(r: Result<T, Error>) -> Result<(), Error> {
    match r {
        Ok(_) => Ok(()),
        Err(e) => Err(e),
    }
}

/// Checks a session and options for the text encoder and configures its
/// tokenizer, in this order: the session's outlet contract
/// ([`crate::session::validate_text_session`]), the batching options
/// ([`BatchOptions::validate`]), the tokenizer's padding and truncation
/// ([`configure_tokenizer`] with the options' `max_seq_len`).
pub fn prepare_text_encoder(
    session: &ort::session::Session,
    tokenizer: Tokenizer,
    opts: &crate::options::Options,
) -> (r: Result<Tokenizer, Error>)
    ensures
        ({
            let ins = crate::session::session_inputs_of(*session);
            let outs = crate::session::session_outputs_of(*session);
            let b = opts.spec_batch();
            if !crate::session::text_session_ok(ins, outs) {
                crate::session::text_session_matches(outcome_of(r), ins, outs)
            } else if !b.is_valid() {
                b.validation_matches(outcome_of(r))
            } else {
                configure_matches(r, tokenizer, b.spec_max_seq_len())
            }
        }),
{
    match crate::session::validate_text_session(session) {
        Ok(()) => {},
        Err(e) => {
            return Err(e);
        },
    }
    let batch = opts.batch();
    match batch.validate() {
        Ok(()) => {},
        Err(e) => {
            return Err(e);
        },
    }
    configure_tokenizer(tokenizer, batch.max_seq_len())
}


/// Flattening law: when all of the first `k` rows have ids and mask of
/// length `seq_len`, the flattened tensors are `k * seq_len` long and row
/// `r`'s token `j` sits at position `r * seq_len + j` of both.
pub proof fn law_flattened_rows_layout(rows: Seq<(Seq<u32>, Seq<u32>)>, seq_len: nat, k: nat)
    requires
        k <= rows.len(),
        forall|t: int|
            0 <= t < k ==> (#[trigger] rows[t]).0.len() == seq_len && rows[t].1.len() == seq_len,
    ensures
        flat_ids(rows, k).len() == k * seq_len,
        flat_mask(rows, k).len() == k * seq_len,
        forall|r: int, j: int|
            0 <= r < k && 0 <= j < seq_len ==> #[trigger] flat_ids(rows, k)[r * seq_len + j]
                == rows[r].0[j] as i64 && flat_mask(rows, k)[r * seq_len + j] == rows[r].1[j] as i64,
    decreases k,
{
    if k > 0 {
        let k1 = (k - 1) as nat;
        law_flattened_rows_layout(rows, seq_len, k1);
        let prev_ids = flat_ids(rows, k1);
        let prev_mask = flat_mask(rows, k1);
        let ids = rows[k - 1].0.map_values(|x: u32| x as i64);
        let mask = rows[k - 1].1.map_values(|x: u32| x as i64);
        assert(k * seq_len == k1 * seq_len + seq_len) by (nonlinear_arith)
            requires
                k == k1 + 1,
        ;
        assert(rows[k - 1].0.len() == seq_len && rows[k - 1].1.len() == seq_len);
        assert(flat_ids(rows, k) == prev_ids + ids);
        assert(flat_mask(rows, k) == prev_mask + mask);
        assert forall|r: int, j: int| 0 <= r < k && 0 <= j < seq_len implies #[trigger] flat_ids(
            rows,
            k,
        )[r * seq_len + j] == rows[r].0[j] as i64 && flat_mask(rows, k)[r * seq_len + j]
            == rows[r].1[j] as i64 by {
            let idx = r * seq_len + j;
            assert(flat_ids(rows, k) == prev_ids + ids);
            assert(flat_mask(rows, k) == prev_mask + mask);
            if r < k - 1 {
                assert(0 <= r * seq_len + j < k1 * seq_len) by (nonlinear_arith)
                    requires
                        0 <= r < k1,
                        0 <= j < seq_len,
                ;
                assert((prev_ids + ids)[idx] == prev_ids[idx]);
                assert((prev_mask + mask)[idx] == prev_mask[idx]);
            } else {
                assert(r * seq_len == k1 * seq_len) by (nonlinear_arith)
                    requires
                        r == k1,
                ;
                assert((prev_ids + ids)[idx] == ids[j]);
                assert((prev_mask + mask)[idx] == mask[j]);
            }
        }
    } else {
        assert(0 * seq_len == 0) by (nonlinear_arith);
    }
}


proof fn lemma_even_rows_have_no_uneven(rows: Seq<(Seq<u32>, Seq<u32>)>, seq_len: int, i: int)
    requires
        0 <= i,
        forall|t: int|
            0 <= t < rows.len() ==> (#[trigger] rows[t]).0.len() == seq_len && rows[t].1.len()
                == seq_len,
    ensures
        first_uneven_from(rows, seq_len, i) is None,
    decreases rows.len() - i,
{
    if i < rows.len() {
        lemma_even_rows_have_no_uneven(rows, seq_len, i + 1);
    }
}

/// Chunk law: when a chunk's rows all hold ids and mask of one length
/// `seq_len > 0`, preparing the chunk succeeds with that `seq_len`, and the
/// model inputs are the rows' ids and masks concatenated in input order,
/// `rows.len() * seq_len` long, row `r`'s token `j` at `r * seq_len + j`.
pub proof fn law_even_chunk_flattens_in_order(
    r: Result<ChunkInputs, Error>,
    rows: Seq<(Seq<u32>, Seq<u32>)>,
    seq_len: nat,
    batch: usize,
    base_index: usize,
)
    requires
        rows.len() > 0,
        seq_len > 0,
        forall|t: int|
            0 <= t < rows.len() ==> (#[trigger] rows[t]).0.len() == seq_len && rows[t].1.len()
                == seq_len,
        chunk_matches(r, rows, batch, base_index),
    ensures
        r matches Ok(c) && c.seq_len == seq_len && c.batch == batch && c.input_ids@ == flat_ids(
            rows,
            rows.len(),
        ) && c.attention_mask@ == flat_mask(rows, rows.len()),
        r matches Ok(c) ==> c.input_ids@.len() == rows.len() * seq_len && c.attention_mask@.len()
            == rows.len() * seq_len,
        r matches Ok(c) ==> forall|i: int, j: int|
            0 <= i < rows.len() && 0 <= j < seq_len ==> #[trigger] c.input_ids@[i * seq_len + j]
                == rows[i].0[j] as i64 && c.attention_mask@[i * seq_len + j] == rows[i].1[j] as i64,
{
    assert(rows[0].0.len() == seq_len);
    lemma_even_rows_have_no_uneven(rows, seq_len as int, 0);
    law_flattened_rows_layout(rows, seq_len, rows.len());
}

/// Chunk preparation law: when the stored truncation is safe and the texts
/// have a batch encoding, preparing the chunk never fails on the tokenizer:
/// the result is the [`chunk_matches`] outcome of rows the tokenizer gives
/// for these texts, one per text, so its only [`Error::Tokenizer`] is an
/// uneven row at that row's index, and the only other error an empty first
/// row; a long text is never refused for its length.
pub proof fn law_encodable_chunk_is_flattened(
    r: Result<ChunkInputs, Error>,
    tokenizer: Tokenizer,
    texts: Seq<Seq<char>>,
    base_index: usize,
    rows0: Seq<(Seq<u32>, Seq<u32>)>,
)
    requires
        chunk_outcome(r, tokenizer, texts, base_index),
        truncation_error(tokenizer) is None,
        batch_encodes_to(tokenizer, texts, rows0),
    ensures
        exists|rows: Seq<(Seq<u32>, Seq<u32>)>|
            {
                &&& #[trigger] batch_encodes_to(tokenizer, texts, rows)
                &&& rows.len() == texts.len()
                &&& chunk_matches(r, rows, texts.len() as usize, base_index)
            },
        r matches Err(Error::Batch { index, source }) ==> match *source {
            Error::Tokenizer(m) => exists|i: nat, a: nat, b: nat, c: nat|
                m@ == #[trigger] uneven_row_text(i, a, b, c) && index == base_index + i,
            Error::EmptyText => index == base_index,
            _ => false,
        },
        r matches Err(e) ==> e is Batch,
{
    let rows = choose|rows: Seq<(Seq<u32>, Seq<u32>)>|
        {
            &&& #[trigger] batch_encodes_to(tokenizer, texts, rows)
            &&& rows.len() == texts.len()
            &&& forall|i: int| 0 <= i < rows.len() ==> (#[trigger] rows[i]).1.len() == rows[i].0.len()
            &&& chunk_matches(r, rows, texts.len() as usize, base_index)
        };
    let seq_len = if rows.len() == 0 {
        0
    } else {
        rows[0].0.len() as int
    };
    if seq_len != 0 && first_uneven_from(rows, seq_len, 0) is Some {
        let i = first_uneven_from(rows, seq_len, 0)->0;
        lemma_first_uneven_in_range(rows, seq_len, 0);
        assert(uneven_row_text(i as nat, rows[i].0.len(), rows[i].1.len(), seq_len as nat)
            == uneven_row_text(i as nat, rows[i].0.len(), rows[i].1.len(), seq_len as nat));
    }
}

proof fn lemma_first_uneven_in_range(rows: Seq<(Seq<u32>, Seq<u32>)>, seq_len: int, i: int)
    requires
        0 <= i,
        first_uneven_from(rows, seq_len, i) is Some,
    ensures
        i <= first_uneven_from(rows, seq_len, i)->0 < rows.len(),
    decreases rows.len() - i,
{
    if i < rows.len() && !(rows[i].0.len() != seq_len || rows[i].1.len() != seq_len) {
        lemma_first_uneven_in_range(rows, seq_len, i + 1);
    }
}

} // verus!
