//! The calls into the `tokenizers` crate that the library's logic makes,
//! each behind a trusted item whose contract states what holds of its result.

use tokenizers::{
    PaddingDirection, PostProcessor, PaddingParams, PaddingStrategy, Tokenizer, TruncationDirection,
    TruncationParams, TruncationStrategy,
};
use vstd::prelude::*;
use vstd::string::StringExecFns;
use crate::error::Error;
use crate::textfmt::{decimal, usize_to_decimal};
use crate::window::TokenEncoding;

verus! {

/// `tokenizers::Tokenizer`, carried through the library as an opaque value.
#[verifier::external_type_specification]
#[verifier::external_body]
pub struct ExTokenizer(Tokenizer);

/// What `Tokenizer::token_to_id(token)` yields for this tokenizer.
pub uninterp spec fn token_id_of(tokenizer: Tokenizer, token: Seq<char>) -> Option<u32>;

/// How many special tokens this tokenizer's post-processor adds to a single
/// sequence (`0` without a post-processor).
pub uninterp spec fn added_tokens_of(tokenizer: Tokenizer) -> usize;

/// The `(max_length, stride)` of the truncation stored in this tokenizer
/// (`Tokenizer::get_truncation`), `None` when it does not truncate.
pub uninterp spec fn truncation_of(tokenizer: Tokenizer) -> Option<(usize, usize)>;

/// Holds when `Tokenizer::encode(text, true)` on this tokenizer can return
/// an encoding with these ids, byte offsets and special-tokens mask.
pub uninterp spec fn encodes_to(
    tokenizer: Tokenizer,
    text: Seq<char>,
    ids: Seq<u32>,
    offsets: Seq<(usize, usize)>,
    mask: Seq<u32>,
) -> bool;

/// Holds when `Tokenizer::encode_batch(texts, true)` on this tokenizer can
/// return encodings whose `(ids, attention_mask)` are these rows, in order.
pub uninterp spec fn batch_encodes_to(
    tokenizer: Tokenizer,
    texts: Seq<Seq<char>>,
    rows: Seq<(Seq<u32>, Seq<u32>)>,
) -> bool;

/// The tokenizer `Tokenizer::with_padding` leaves behind when given
/// batch-longest, right-side padding by `pad_id` / `pad_token`, type id `0`,
/// no multiple.
pub uninterp spec fn padded_tokenizer(tokenizer: Tokenizer, pad_id: u32, pad_token: Seq<char>) -> Tokenizer;

/// The tokenizer `Tokenizer::with_truncation` leaves behind when given
/// right-side, longest-first truncation to `max_length` with stride `0`.
pub uninterp spec fn truncated_tokenizer(tokenizer: Tokenizer, max_length: usize) -> Tokenizer;

/// The views of a list of string slices.
pub open spec fn texts_view(texts: Seq<&str>) -> Seq<Seq<char>> {
    texts.map_values(|t: &str| t@)
}

/// The views of a list of `(ids, mask)` rows.
pub open spec fn rows_view(rows: Seq<(Vec<u32>, Vec<u32>)>) -> Seq<(Seq<u32>, Seq<u32>)> {
    rows.map_values(|r: (Vec<u32>, Vec<u32>)| (r.0@, r.1@))
}

/// A successful encoding has one offset pair and one mask entry per id.
pub open spec fn encoding_is_even(r: Result<TokenEncoding, String>) -> bool {
    r matches Ok(e) ==> e.wf()
}

/// Every row of a successful batch encoding has as many mask entries as ids.
pub open spec fn rows_are_even(r: Result<Vec<(Vec<u32>, Vec<u32>)>, String>) -> bool {
    r matches Ok(rows) ==> forall|i: int|
        0 <= i < rows@.len() ==> (#[trigger] rows@[i]).1@.len() == rows@[i].0@.len()
}

/// Encoding with special tokens cannot panic in the stored truncation: with
/// `added` special tokens, the length left for the text, `max_length -
/// added`, exists and is either `0` or above the stride.
pub open spec fn truncation_safe(trunc: Option<(usize, usize)>, added: usize) -> bool {
    match trunc {
        None => true,
        Some((max_length, stride)) => max_length >= added && (max_length == added || stride
            < max_length - added),
    }
}

/// The message reported for a stored truncation that encoding would panic
/// on.
pub open spec fn unsafe_truncation_text(max_length: nat, stride: nat, added: nat) -> Seq<char> {
    "tokenizer truncation (max_length "@ + decimal(max_length) + ", stride "@ + decimal(stride)
        + ") leaves no room beside its "@ + decimal(added) + " special tokens"@
}

/// The error [`check_truncation`] reports for this tokenizer, if any.
pub open spec fn truncation_error(tokenizer: Tokenizer) -> Option<Seq<char>> {
    let added = added_tokens_of(tokenizer);
    match truncation_of(tokenizer) {
        Some((max_length, stride)) if !truncation_safe(Some((max_length, stride)), added) => Some(
            unsafe_truncation_text(max_length as nat, stride as nat, added as nat),
        ),
        _ => None,
    }
}

/// A successful batch encoding has one row per input text.
pub open spec fn one_row_per_text(r: Result<Vec<(Vec<u32>, Vec<u32>)>, String>, n: nat) -> bool {
    r matches Ok(rows) ==> rows@.len() == n
}

/// `Tokenizer::encode(text, true)` (special tokens added), its encoding's
/// `get_ids`, `get_offsets` and `get_special_tokens_mask` copied out, or the
/// error's `Display` text. An `Encoding` keeps its ids, offsets and masks the
/// same length (its truncation, padding and merging cut or extend all of them
/// together), so a success is even, and it is an encoding of this text by
/// this tokenizer ([`encodes_to`]). Which ids come back is not stated: a
/// model with BPE dropout draws random numbers, so two calls may differ.
/// A failure does not depend on that draw: the only random step, the merges
/// of `Word::merge_all`, cannot fail, while everything that can (the
/// normalizer, the pre-tokenizer, the model's vocabulary lookups made before
/// merging, the truncation strategy and the post-processor's template) is
/// fixed by the tokenizer and the text; so a text it fails on has no
/// encoding at all.
/// Post-processing subtracts the added special tokens from the stored
/// `max_length` and truncates to what is left with the stored stride, which
/// panics unless [`truncation_safe`] holds; so it is required.
#[verifier::external_body]
pub(crate) fn encode_with_special_tokens(tokenizer: &Tokenizer, text: &str) -> (r: Result<
    TokenEncoding,
    String,
>)
    requires
        truncation_safe(truncation_of(*tokenizer), added_tokens_of(*tokenizer)),
    ensures
        encoding_is_even(r),
        r matches Ok(e) ==> encodes_to(
            *tokenizer,
            text@,
            e.ids@,
            e.offsets@,
            e.special_tokens_mask@,
        ),
        r is Err ==> forall|ids: Seq<u32>, offsets: Seq<(usize, usize)>, mask: Seq<u32>|
            !#[trigger] encodes_to(*tokenizer, text@, ids, offsets, mask),
{
    match tokenizer.encode(text, true) {
        Ok(enc) => Ok(TokenEncoding {
            ids: enc.get_ids().to_vec(),
            offsets: enc.get_offsets().to_vec(),
            special_tokens_mask: enc.get_special_tokens_mask().to_vec(),
        }),
        Err(e) => Err(e.to_string()),
    }
}

/// `Tokenizer::encode_batch(texts, true)`, each encoding's `get_ids` and
/// `get_attention_mask` copied out in order, or the error's `Display` text.
/// The source encodes each input into one encoding and collects them in
/// input order, so a success has one row per text, and each row's mask is as
/// long as its ids; the rows are an encoding of these texts by this tokenizer
/// ([`batch_encodes_to`]). Which ids come back, and which error comes back
/// when several inputs fail (the inputs are encoded in parallel), is not
/// stated. Each input goes through the same encoding as
/// [`encode_with_special_tokens`], hence the same requirement, and a failure
/// is as fixed by the tokenizer and the texts (the batch-longest padding that
/// follows cannot fail), so texts it fails on have no batch encoding.
#[verifier::external_body]
pub(crate) fn encode_batch_rows(tokenizer: &Tokenizer, texts: &[&str]) -> (r: Result<
    Vec<(Vec<u32>, Vec<u32>)>,
    String,
>)
    requires
        truncation_safe(truncation_of(*tokenizer), added_tokens_of(*tokenizer)),
    ensures
        one_row_per_text(r, texts@.len()),
        rows_are_even(r),
        r matches Ok(rows) ==> batch_encodes_to(*tokenizer, texts_view(texts@), rows_view(rows@)),
        r is Err ==> forall|rows: Seq<(Seq<u32>, Seq<u32>)>|
            !#[trigger] batch_encodes_to(*tokenizer, texts_view(texts@), rows),
{
    match tokenizer.encode_batch(texts.to_vec(), true) {
        Ok(encs) => Ok(
            encs.iter().map(|e| (e.get_ids().to_vec(), e.get_attention_mask().to_vec())).collect(),
        ),
        Err(e) => Err(e.to_string()),
    }
}

/// `Tokenizer::token_to_id(token)`, named [`token_id_of`].
#[verifier::external_body]
pub(crate) fn token_to_id(tokenizer: &Tokenizer, token: &str) -> (r: Option<u32>)
    ensures
        r == token_id_of(*tokenizer, token@),
{
    tokenizer.token_to_id(token)
}

/// `Tokenizer::with_padding` with batch-longest, right-side padding by
/// `pad_id` / `pad_token`, type id `0`, no multiple. The new tokenizer is
/// named [`padded_tokenizer`]; what it encodes afterwards is not restated.
#[verifier::external_body]
pub(crate) fn set_batch_longest_padding(tokenizer: &mut Tokenizer, pad_id: u32, pad_token: &str)
    ensures
        *final(tokenizer) == padded_tokenizer(*old(tokenizer), pad_id, pad_token@),
{
    tokenizer.with_padding(
        Some(
            PaddingParams {
                strategy: PaddingStrategy::BatchLongest,
                direction: PaddingDirection::Right,
                pad_id,
                pad_token: pad_token.to_string(),
                pad_type_id: 0,
                pad_to_multiple_of: None,
            },
        ),
    );
}

/// `Tokenizer::with_truncation` with right-side, longest-first truncation to
/// `max_length` and stride `0`. It subtracts the post-processor's added-token
/// count from `max_length`, so `max_length` must be at least that count; its
/// only failure, a stride above the remaining length, cannot happen with
/// stride `0`. The new tokenizer is named [`truncated_tokenizer`]; what it
/// encodes afterwards is not restated.
#[verifier::external_body]
pub(crate) fn set_right_truncation(tokenizer: &mut Tokenizer, max_length: usize)
    requires
        max_length >= added_tokens_of(*old(tokenizer)),
    ensures
        *final(tokenizer) == truncated_tokenizer(*old(tokenizer), max_length),
{
    let _ = tokenizer.with_truncation(
        Some(
            TruncationParams {
                direction: TruncationDirection::Right,
                max_length,
                strategy: TruncationStrategy::LongestFirst,
                stride: 0,
            },
        ),
    );
}

/// `PostProcessor::added_tokens(false)` of the tokenizer's post-processor
/// (`Tokenizer::get_post_processor`), or `0` without one: the count that
/// `with_truncation` subtracts. Named [`added_tokens_of`].
#[verifier::external_body]
pub(crate) fn added_special_tokens(tokenizer: &Tokenizer) -> (r: usize)
    ensures
        r == added_tokens_of(*tokenizer),
{
    match tokenizer.get_post_processor() {
        Some(p) => p.added_tokens(false),
        None => 0,
    }
}

/// `Tokenizer::get_truncation`, its `max_length` and `stride` copied out.
/// Named [`truncation_of`].
#[verifier::external_body]
pub(crate) fn stored_truncation(tokenizer: &Tokenizer) -> (r: Option<(usize, usize)>)
    ensures
        r == truncation_of(*tokenizer),
{
    match tokenizer.get_truncation() {
        Some(t) => Some((t.max_length, t.stride)),
        None => None,
    }
}

/// Checks that encoding with this tokenizer cannot panic in its stored
/// truncation (see [`truncation_safe`]); otherwise an [`Error::Tokenizer`]
/// naming the truncation and the special-token count.
pub fn check_truncation(tokenizer: &Tokenizer) -> (r: Result<(), Error>)
    ensures
        truncation_error(*tokenizer) is None ==> r is Ok,
        truncation_error(*tokenizer) matches Some(m) ==> (r matches Err(Error::Tokenizer(x)) && x@
            == m),
{
    match stored_truncation(tokenizer) {
        None => Ok(()),
        Some((max_length, stride)) => {
            let added = added_special_tokens(tokenizer);
            if max_length >= added && (max_length == added || stride < max_length - added) {
                Ok(())
            } else {
                let mut m = String::from_str("tokenizer truncation (max_length ");
                let s1 = usize_to_decimal(max_length);
                m.append(s1.as_str());
                m.append(", stride ");
                let s2 = usize_to_decimal(stride);
                m.append(s2.as_str());
                m.append(") leaves no room beside its ");
                let s3 = usize_to_decimal(added);
                m.append(s3.as_str());
                m.append(" special tokens");
                Err(Error::Tokenizer(m))
            }
        },
    }
}

} // verus!
