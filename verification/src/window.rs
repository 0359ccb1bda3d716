//! Sliding-window long-input support: splits an encoded text longer than the
//! model's window into overlapping, byte-exact, fixed-token windows.
//!
//! The text is encoded once with special tokens; the content tokens (the
//! special-tokens mask is `0`) are tiled by a stride, and each window
//! re-attaches the encoding's leading and trailing specials verbatim.

use core::ops::Range;
use vstd::prelude::*;
use vstd::string::StringExecFns;
use crate::error::Error;
use crate::textfmt::{decimal, usize_to_decimal};
use crate::tokenize::{encodes_to, truncation_error};

verus! {

/// A window: its byte span in the input text, its token ids (framing
/// specials included) and its count of real content tokens.
pub type IdWindow = (Range<usize>, Vec<u32>, usize);

/// Windowing configuration: the maximum real tokens per window (`None`
/// fills the encoder window) and the token overlap between windows.
#[derive(Clone, Copy, Debug)]
pub struct WindowOptions {
    size: Option<usize>,
    overlap: usize,
}

impl View for WindowOptions {
    type V = (Option<usize>, usize);

    closed spec fn view(&self) -> (Option<usize>, usize) {
        (self.size, self.overlap)
    }
}

impl WindowOptions {
    /// The default size (fills the encoder window) and no overlap.
    pub fn new() -> (r: Self)
        ensures
            r@ == (None::<usize>, 0usize),
    {
        WindowOptions { size: None, overlap: 0 }
    }

    /// The configured maximum real tokens per window, if overridden.
    pub fn size(&self) -> (r: Option<usize>)
        ensures
            r == self@.0,
    {
        self.size
    }

    /// The token overlap between consecutive windows.
    pub fn overlap(&self) -> (r: usize)
        ensures
            r == self@.1,
    {
        self.overlap
    }

    /// Set an explicit window size. A size of `0` is clamped to a one-token
    /// budget when windows are built, not rejected.
    pub fn with_size(self, n: usize) -> (r: Self)
        ensures
            r@ == (Some(n), self@.1),
    {
        let mut s = self;
        s.size = Some(n);
        s
    }

    /// Set the token overlap. An overlap at least the window size clamps the
    /// step to one token per window.
    pub fn with_overlap(self, n: usize) -> (r: Self)
        ensures
            r@ == (self@.0, n),
    {
        let mut s = self;
        s.overlap = n;
        s
    }
}

impl Default for WindowOptions {
    fn default() -> (r: Self)
        ensures
            r@ == (None::<usize>, 0usize),
    {
        Self::new()
    }
}

/// The per-window real-token budget: `None` when the special-token reserve
/// leaves no room below `max_seq_len`; otherwise the requested size (`None`
/// filling the window) clamped to at least one token and at most
/// `max_seq_len - reserve`.
pub open spec fn budget_spec(size: Option<usize>, max_seq_len: int, reserve: int) -> Option<int> {
    if max_seq_len - reserve <= 0 {
        None
    } else {
        let ceiling = max_seq_len - reserve;
        match size {
            None => Some(ceiling),
            Some(n) => Some(
                if n < 1 {
                    1
                } else if n < ceiling {
                    n as int
                } else {
                    ceiling
                },
            ),
        }
    }
}

/// The message of the error reported when the reserve fills the window.
pub open spec fn budget_zero_text(reserve: nat, max_seq_len: nat) -> Seq<char> {
    "window budget is zero: special-token reserve "@ + decimal(reserve) + " fills max_seq_len "@
        + decimal(max_seq_len)
}

/// Per-window real-token budget from the requested size and the encoder
/// limits (see [`budget_spec`]). Reports [`Error::Tokenizer`] only when the
/// special-token `reserve` alone fills `max_seq_len`.
pub fn window_budget(opts: &WindowOptions, max_seq_len: usize, reserve: usize) -> (r: Result<
    usize,
    Error,
>)
    ensures
        match budget_spec(opts@.0, max_seq_len as int, reserve as int) {
            Some(b) => r matches Ok(x) && x == b,
            None => r matches Err(Error::Tokenizer(m)) && m@ == budget_zero_text(
                reserve as nat,
                max_seq_len as nat,
            ),
        },
{
    let ceiling = match max_seq_len.checked_sub(reserve) {
        Some(b) if b > 0 => b,
        _ => {
            let mut m = String::from_str("window budget is zero: special-token reserve ");
            let rs = usize_to_decimal(reserve);
            m.append(rs.as_str());
            m.append(" fills max_seq_len ");
            let ms = usize_to_decimal(max_seq_len);
            m.append(ms.as_str());
            return Err(Error::Tokenizer(m));
        },
    };
    match opts.size() {
        None => Ok(ceiling),
        Some(n) => {
            let at_least_one = if n < 1 {
                1
            } else {
                n
            };
            Ok(
                if at_least_one < ceiling {
                    at_least_one
                } else {
                    ceiling
                },
            )
        },
    }
}


/// A window as the contracts see it: byte span start and end, ids, and the
/// count of real content tokens.
pub type WindowView = (int, int, Seq<u32>, int);

/// The contract view of an [`IdWindow`].
pub open spec fn window_view(w: IdWindow) -> WindowView {
    (w.0.start as int, w.0.end as int, w.1@, w.2 as int)
}

/// The contract view of a list of windows.
pub open spec fn windows_view(ws: Seq<IdWindow>) -> Seq<WindowView> {
    ws.map_values(|w: IdWindow| window_view(w))
}

/// The plain values of an encoding that the windowing reads: token ids,
/// byte offsets into the text, and the special-tokens mask (`1` special,
/// `0` content).
#[derive(Debug)]
pub struct TokenEncoding {
    /// Token ids, specials included.
    pub ids: Vec<u32>,
    /// Byte span of each token in the input text.
    pub offsets: Vec<(usize, usize)>,
    /// `1` for a special token, `0` for a content token.
    pub special_tokens_mask: Vec<u32>,
}

impl TokenEncoding {
    /// One offset pair and one mask entry per id.
    pub open spec fn wf(&self) -> bool {
        &&& self.offsets@.len() == self.ids@.len()
        &&& self.special_tokens_mask@.len() == self.ids@.len()
    }
}

/// Position `i` holds a content token.
pub open spec fn is_content(mask: Seq<u32>, i: int) -> bool {
    0 <= i < mask.len() && mask[i] == 0
}

/// The mask marks at least one content token.
pub open spec fn has_content(mask: Seq<u32>) -> bool {
    exists|i: int| is_content(mask, i)
}

/// `c` is the first content position.
pub open spec fn is_first_content(mask: Seq<u32>, c: int) -> bool {
    is_content(mask, c) && forall|j: int| 0 <= j < c ==> mask[j] != 0
}

/// `c` is the last content position.
pub open spec fn is_last_content(mask: Seq<u32>, c: int) -> bool {
    is_content(mask, c) && forall|j: int| c < j < mask.len() ==> mask[j] != 0
}

/// The first content position (meaningful when [`has_content`]).
pub open spec fn first_content(mask: Seq<u32>) -> int {
    choose|c: int| is_first_content(mask, c)
}

/// The last content position (meaningful when [`has_content`]).
pub open spec fn last_content(mask: Seq<u32>) -> int {
    choose|c: int| is_last_content(mask, c)
}

/// Step between window starts: `budget - overlap`, at least one token.
pub open spec fn stride_spec(budget: int, overlap: int) -> int {
    if budget - overlap >= 1 {
        budget - overlap
    } else {
        1
    }
}

/// Number of windows over `len` content tokens: one per stride until a
/// window's end reaches the content end.
pub open spec fn window_count(len: int, budget: int, stride: int) -> int {
    if len <= budget {
        1
    } else {
        (len - budget + stride - 1) / stride + 1
    }
}

/// Content-relative end of window `k` (exclusive).
pub open spec fn window_end(k: int, stride: int, budget: int, len: int) -> int {
    if k * stride + budget < len {
        k * stride + budget
    } else {
        len
    }
}

/// Window `k` over the content span `[c0, c1]`: the byte span of its
/// content tokens, the leading specials, its content ids and the trailing
/// specials, and its content-token count.
pub open spec fn candidate_window(
    ids: Seq<u32>,
    offsets: Seq<(usize, usize)>,
    c0: int,
    c1: int,
    budget: int,
    stride: int,
    k: int,
) -> WindowView {
    let len = c1 - c0 + 1;
    let s = k * stride;
    let e = window_end(k, stride, budget, len);
    (
        offsets[c0 + s].0 as int,
        offsets[c0 + e - 1].1 as int,
        ids.subrange(0, c0) + ids.subrange(c0 + s, c0 + e) + ids.subrange(c1 + 1, ids.len() as int),
        e - s,
    )
}

/// The first `k` windows, without those whose byte span is empty.
pub open spec fn kept_windows(
    ids: Seq<u32>,
    offsets: Seq<(usize, usize)>,
    c0: int,
    c1: int,
    budget: int,
    stride: int,
    k: nat,
) -> Seq<WindowView>
    decreases k,
{
    if k == 0 {
        Seq::empty()
    } else {
        let prev = kept_windows(ids, offsets, c0, c1, budget, stride, (k - 1) as nat);
        let w = candidate_window(ids, offsets, c0, c1, budget, stride, k - 1);
        if w.1 > w.0 {
            prev.push(w)
        } else {
            prev
        }
    }
}

/// Why windowing fails.
pub enum WindowingFailure {
    /// The special-token reserve fills `max_seq_len`.
    BudgetZero { reserve: nat },
    /// More windows than allowed.
    TooMany { got: nat },
}

/// What windowing an encoding yields: no window without content; the
/// budget failure; the window-count failure; else the kept windows.
pub open spec fn windowing(
    ids: Seq<u32>,
    offsets: Seq<(usize, usize)>,
    mask: Seq<u32>,
    opts: (Option<usize>, usize),
    max_seq_len: int,
    max_windows: int,
) -> Result<Seq<WindowView>, WindowingFailure> {
    if !has_content(mask) {
        Ok(Seq::empty())
    } else {
        let c0 = first_content(mask);
        let c1 = last_content(mask);
        let reserve = c0 + (mask.len() - 1 - c1);
        let len = c1 - c0 + 1;
        match budget_spec(opts.0, max_seq_len, reserve) {
            None => Err(WindowingFailure::BudgetZero { reserve: reserve as nat }),
            Some(b) => {
                let st = stride_spec(b, opts.1 as int);
                let n = window_count(len, b, st);
                if n > max_windows {
                    Err(WindowingFailure::TooMany { got: n as nat })
                } else {
                    Ok(kept_windows(ids, offsets, c0, c1, b, st, n as nat))
                }
            },
        }
    }
}

/// The executable result agrees with the [`windowing`] outcome.
pub open spec fn windowing_matches(
    r: Result<Vec<IdWindow>, Error>,
    expected: Result<Seq<WindowView>, WindowingFailure>,
    max_seq_len: usize,
    max_windows: usize,
) -> bool {
    match expected {
        Ok(ws) => r matches Ok(v) && windows_view(v@) == ws,
        Err(WindowingFailure::BudgetZero { reserve }) => r matches Err(Error::Tokenizer(m)) && m@
            == budget_zero_text(reserve, max_seq_len as nat),
        Err(WindowingFailure::TooMany { got }) => r matches Err(
            Error::BatchTooLarge { got: g, max },
        ) && g == got && max == max_windows,
    }
}

proof fn lemma_first_content(mask: Seq<u32>, c: int)
    requires
        is_first_content(mask, c),
    ensures
        has_content(mask),
        first_content(mask) == c,
{
    assert(is_content(mask, c));
    let d = first_content(mask);
    assert(is_first_content(mask, d));
    if d < c {
        assert(mask[d] != 0);
    }
    if c < d {
        assert(mask[c] != 0);
    }
}

proof fn lemma_last_content(mask: Seq<u32>, c: int)
    requires
        is_last_content(mask, c),
    ensures
        last_content(mask) == c,
{
    let d = last_content(mask);
    assert(is_last_content(mask, d));
    if d < c {
        assert(mask[c] != 0);
    }
    if c < d {
        assert(mask[d] != 0);
    }
}

/// The schedule of window starts: every scheduled start lies inside the
/// content, and a window reaches the content end exactly when it is the
/// last one.
pub proof fn lemma_window_schedule(len: int, budget: int, stride: int, k: int)
    requires
        1 <= stride <= budget,
        1 <= len,
        0 <= k < window_count(len, budget, stride),
    ensures
        window_count(len, budget, stride) >= 1,
        0 <= k * stride < len,
        (k * stride + budget >= len) <==> (k == window_count(len, budget, stride) - 1),
{
    if len <= budget {
        assert(k == 0);
        assert(k * stride == 0) by (nonlinear_arith)
            requires
                k == 0,
        ;
    } else {
        let d = len - budget;
        let q = (d + stride - 1) / stride;
        assert(window_count(len, budget, stride) == q + 1);
        assert(q * stride >= d && (q - 1) * stride < d && q * stride <= d + stride - 1) by (
        nonlinear_arith)
            requires
                d >= 1,
                stride >= 1,
                q == (d + stride - 1) / stride,
        {
            vstd::arithmetic::div_mod::lemma_fundamental_div_mod(d + stride - 1, stride);
        }
        assert(0 <= k * stride <= q * stride) by (nonlinear_arith)
            requires
                0 <= k <= q,
                stride >= 1,
        ;
        if k < q {
            assert(k * stride <= (q - 1) * stride) by (nonlinear_arith)
                requires
                    0 <= k <= q - 1,
                    stride >= 1,
            ;
        }
    }
}

/// Appends `src[lo..hi]` to `dst`.
fn extend_from_range(dst: &mut Vec<u32>, src: &Vec<u32>, lo: usize, hi: usize)
    requires
        lo <= hi <= src@.len(),
    ensures
        final(dst)@ == old(dst)@ + src@.subrange(lo as int, hi as int),
{
    let mut i = lo;
    while i < hi
        invariant
            lo <= i <= hi <= src@.len(),
            dst@ == old(dst)@ + src@.subrange(lo as int, i as int),
        decreases hi - i,
    {
        dst.push(src[i]);
        assert(src@.subrange(lo as int, i + 1) =~= src@.subrange(lo as int, i as int).push(
            src@[i as int],
        ));
        i = i + 1;
    }
}

/// Exact token-count windows over an encoding, embedding its token ids
/// verbatim: the content span is tiled by `stride = max(budget - overlap, 1)`
/// and each window is framed by the encoding's leading and trailing
/// specials. No windows when the encoding has no content token; at most
/// `max_windows` windows, else [`Error::BatchTooLarge`] before any window is
/// built. See [`windowing`] for the exact result.
pub fn id_windows(
    enc: &TokenEncoding,
    opts: &WindowOptions,
    max_seq_len: usize,
    max_windows: usize,
) -> (r: Result<Vec<IdWindow>, Error>)
    requires
        enc.wf(),
    ensures
        windowing_matches(
            r,
            windowing(
                enc.ids@,
                enc.offsets@,
                enc.special_tokens_mask@,
                opts@,
                max_seq_len as int,
                max_windows as int,
            ),
            max_seq_len,
            max_windows,
        ),
{
    let ids = &enc.ids;
    let offsets = &enc.offsets;
    let mask = &enc.special_tokens_mask;
    let n = mask.len();

    // First content token.
    let mut c0: usize = 0;
    while c0 < n && mask[c0] != 0
        invariant
            n == mask@.len(),
            c0 <= n,
            forall|j: int| 0 <= j < c0 ==> mask@[j] != 0,
        decreases n - c0,
    {
        c0 = c0 + 1;
    }
    if c0 == n {
        assert(!has_content(mask@)) by {
            if has_content(mask@) {
                let i = choose|i: int| is_content(mask@, i);
                assert(mask@[i] != 0);
            }
        }
        let none: Vec<IdWindow> = Vec::new();
        assert(windows_view(none@) =~= Seq::<WindowView>::empty());
        return Ok(none);
    }
    proof {
        lemma_first_content(mask@, c0 as int);
    }

    // Last content token.
    let mut c1: usize = n - 1;
    while mask[c1] != 0
        invariant
            n == mask@.len(),
            c0 <= c1 < n,
            mask@[c0 as int] == 0,
            forall|j: int| c1 < j < n ==> mask@[j] != 0,
        decreases c1,
    {
        c1 = c1 - 1;
    }
    proof {
        lemma_last_content(mask@, c1 as int);
    }

    let mut leading: Vec<u32> = Vec::new();
    extend_from_range(&mut leading, ids, 0, c0);
    let mut trailing: Vec<u32> = Vec::new();
    extend_from_range(&mut trailing, ids, c1 + 1, n);
    let reserve = leading.len() + trailing.len();
    let content_len = c1 - c0 + 1;

    let budget = match window_budget(opts, max_seq_len, reserve) {
        Ok(b) => b,
        Err(e) => {
            return Err(e);
        },
    };

    let stride_raw = budget.saturating_sub(opts.overlap());
    let stride = if stride_raw < 1 {
        1
    } else {
        stride_raw
    };
    let count = if content_len <= budget {
        1
    } else {
        (content_len - budget + stride - 1) / stride + 1
    };
    if count > max_windows {
        return Err(Error::BatchTooLarge { got: count, max: max_windows });
    }

    let ghost g_ids = ids@;
    let ghost g_offsets = offsets@;
    let mut out: Vec<IdWindow> = Vec::new();
    let mut start: usize = 0;
    let ghost mut k: int = 0;
    proof {
        lemma_window_schedule(content_len as int, budget as int, stride as int, 0);
        assert(0 * (stride as int) == 0) by (nonlinear_arith);
        assert(windows_view(out@) =~= kept_windows(
            g_ids,
            g_offsets,
            c0 as int,
            c1 as int,
            budget as int,
            stride as int,
            0,
        ));
    }
    loop
        invariant_except_break
            windows_view(out@) == kept_windows(
                g_ids,
                g_offsets,
                c0 as int,
                c1 as int,
                budget as int,
                stride as int,
                k as nat,
            ),
        invariant
            g_ids == ids@,
            g_offsets == offsets@,
            n == ids@.len(),
            n == offsets@.len(),
            c0 <= c1 < n,
            content_len == c1 - c0 + 1,
            leading@ == ids@.subrange(0, c0 as int),
            trailing@ == ids@.subrange(c1 + 1, n as int),
            1 <= stride <= budget,
            count == window_count(content_len as int, budget as int, stride as int),
            0 <= k < count,
            start == k * stride,
            start < content_len,
        ensures
            windows_view(out@) == kept_windows(
                g_ids,
                g_offsets,
                c0 as int,
                c1 as int,
                budget as int,
                stride as int,
                count as nat,
            ),
        decreases count - k,
    {
        proof {
            lemma_window_schedule(content_len as int, budget as int, stride as int, k);
        }
        let reach = start.saturating_add(budget);
        let end = if reach < content_len {
            reach
        } else {
            content_len
        };
        assert(end == window_end(k, stride as int, budget as int, content_len as int));
        let mut window_ids: Vec<u32> = Vec::new();
        extend_from_range(&mut window_ids, &leading, 0, leading.len());
        extend_from_range(&mut window_ids, ids, c0 + start, c0 + end);
        extend_from_range(&mut window_ids, &trailing, 0, trailing.len());
        let byte_start = offsets[c0 + start].0;
        let byte_end = offsets[c0 + end - 1].1;
        let ghost prev = out@;
        proof {
            assert(leading@.subrange(0, leading@.len() as int) =~= leading@);
            assert(trailing@.subrange(0, trailing@.len() as int) =~= trailing@);
        }
        if byte_end > byte_start {
            out.push((byte_start..byte_end, window_ids, end - start));
            assert(windows_view(out@) =~= windows_view(prev).push(
                candidate_window(
                    g_ids,
                    g_offsets,
                    c0 as int,
                    c1 as int,
                    budget as int,
                    stride as int,
                    k,
                ),
            ));
        }
        assert(windows_view(out@) == kept_windows(
            g_ids,
            g_offsets,
            c0 as int,
            c1 as int,
            budget as int,
            stride as int,
            (k + 1) as nat,
        ));
        if end >= content_len {
            break ;
        }
        proof {
            assert((k + 1) * stride == k * stride + stride) by (nonlinear_arith);
            lemma_window_schedule(content_len as int, budget as int, stride as int, k + 1);
        }
        start = start + stride;
        proof {
            k = k + 1;
        }
    }
    Ok(out)
}


proof fn lemma_exists_first_content(mask: Seq<u32>, i: int)
    requires
        is_content(mask, i),
    ensures
        exists|c: int| is_first_content(mask, c),
    decreases i,
{
    if forall|j: int| 0 <= j < i ==> mask[j] != 0 {
        assert(is_first_content(mask, i));
    } else {
        let j = choose|j: int| 0 <= j < i && mask[j] == 0;
        lemma_exists_first_content(mask, j);
    }
}

proof fn lemma_exists_last_content(mask: Seq<u32>, i: int)
    requires
        is_content(mask, i),
    ensures
        exists|c: int| is_last_content(mask, c),
    decreases mask.len() - i,
{
    if forall|j: int| i < j < mask.len() ==> mask[j] != 0 {
        assert(is_last_content(mask, i));
    } else {
        let j = choose|j: int| i < j < mask.len() && mask[j] == 0;
        lemma_exists_last_content(mask, j);
    }
}

/// With a content token present, the first and last content positions exist
/// and are ordered.
pub proof fn lemma_content_span(mask: Seq<u32>)
    requires
        has_content(mask),
    ensures
        is_first_content(mask, first_content(mask)),
        is_last_content(mask, last_content(mask)),
        first_content(mask) <= last_content(mask),
{
    let i = choose|i: int| is_content(mask, i);
    lemma_exists_first_content(mask, i);
    lemma_exists_last_content(mask, i);
    let c0 = first_content(mask);
    let c1 = last_content(mask);
    assert(is_first_content(mask, c0));
    assert(is_last_content(mask, c1));
    if c1 < c0 {
        assert(mask[c1] != 0);
    }
}

/// A window covers between one and `budget` content tokens, holds exactly
/// its content tokens plus `reserve` framing specials, and has a non-empty
/// byte span.
pub open spec fn window_fits(w: WindowView, reserve: int, budget: int) -> bool {
    &&& 1 <= w.3 <= budget
    &&& w.2.len() == reserve + w.3
    &&& w.1 > w.0
}

proof fn lemma_kept_windows_fit(
    ids: Seq<u32>,
    offsets: Seq<(usize, usize)>,
    c0: int,
    c1: int,
    budget: int,
    stride: int,
    n: nat,
)
    requires
        0 <= c0 <= c1 < ids.len(),
        offsets.len() == ids.len(),
        1 <= stride <= budget,
        n <= window_count(c1 - c0 + 1, budget, stride),
    ensures
        forall|i: int|
            0 <= i < kept_windows(ids, offsets, c0, c1, budget, stride, n).len() ==> window_fits(
                #[trigger] kept_windows(ids, offsets, c0, c1, budget, stride, n)[i],
                c0 + (ids.len() - 1 - c1),
                budget,
            ),
    decreases n,
{
    if n > 0 {
        let k = n - 1;
        lemma_kept_windows_fit(ids, offsets, c0, c1, budget, stride, k as nat);
        lemma_window_schedule(c1 - c0 + 1, budget, stride, k);
        let w = candidate_window(ids, offsets, c0, c1, budget, stride, k);
        let prev = kept_windows(ids, offsets, c0, c1, budget, stride, k as nat);
        if w.1 > w.0 {
            assert(window_fits(w, c0 + (ids.len() - 1 - c1), budget));
            assert forall|i: int|
                0 <= i < prev.push(w).len() implies window_fits(
                #[trigger] prev.push(w)[i],
                c0 + (ids.len() - 1 - c1),
                budget,
            ) by {
                if i < prev.len() {
                    assert(prev.push(w)[i] == prev[i]);
                }
            }
        }
    }
}

/// Fit law: every window built from an encoding holds at most
/// `max_seq_len` ids; its content-token count is at least one, excludes the
/// framing specials (the ids minus the encoding's special-token reserve),
/// and its byte span is non-empty.
pub proof fn law_windows_fit_max_seq_len(
    ids: Seq<u32>,
    offsets: Seq<(usize, usize)>,
    mask: Seq<u32>,
    opts: (Option<usize>, usize),
    max_seq_len: int,
    max_windows: int,
)
    requires
        offsets.len() == ids.len(),
        mask.len() == ids.len(),
    ensures
        windowing(ids, offsets, mask, opts, max_seq_len, max_windows) matches Ok(ws) ==> forall|
            i: int,
        |
            0 <= i < ws.len() ==> {
                &&& (#[trigger] ws[i]).2.len() <= max_seq_len
                &&& 1 <= ws[i].3
                &&& ws[i].2.len() - ws[i].3 == first_content(mask) + (mask.len() - 1
                    - last_content(mask))
                &&& ws[i].1 > ws[i].0
            },
{
    if has_content(mask) {
        lemma_content_span(mask);
        let c0 = first_content(mask);
        let c1 = last_content(mask);
        let reserve = c0 + (mask.len() - 1 - c1);
        match budget_spec(opts.0, max_seq_len, reserve) {
            None => {},
            Some(b) => {
                let st = stride_spec(b, opts.1 as int);
                let cnt = window_count(c1 - c0 + 1, b, st);
                if cnt <= max_windows {
                    lemma_kept_windows_fit(ids, offsets, c0, c1, b, st, cnt as nat);
                }
            },
        }
    }
}

proof fn lemma_kept_windows_len(
    ids: Seq<u32>,
    offsets: Seq<(usize, usize)>,
    c0: int,
    c1: int,
    budget: int,
    stride: int,
    n: nat,
)
    ensures
        kept_windows(ids, offsets, c0, c1, budget, stride, n).len() <= n,
    decreases n,
{
    if n > 0 {
        lemma_kept_windows_len(ids, offsets, c0, c1, budget, stride, (n - 1) as nat);
    }
}

/// Cap law: windowing never yields more than `max_windows` windows.
pub proof fn law_window_count_within_cap(
    ids: Seq<u32>,
    offsets: Seq<(usize, usize)>,
    mask: Seq<u32>,
    opts: (Option<usize>, usize),
    max_seq_len: int,
    max_windows: int,
)
    requires
        max_windows >= 0,
    ensures
        windowing(ids, offsets, mask, opts, max_seq_len, max_windows) matches Ok(ws) ==> ws.len()
            <= max_windows,
{
    if has_content(mask) {
        let c0 = first_content(mask);
        let c1 = last_content(mask);
        let reserve = c0 + (mask.len() - 1 - c1);
        match budget_spec(opts.0, max_seq_len, reserve) {
            None => {},
            Some(b) => {
                let st = stride_spec(b, opts.1 as int);
                let cnt = window_count(c1 - c0 + 1, b, st);
                if cnt <= max_windows {
                    lemma_kept_windows_len(ids, offsets, c0, c1, b, st, cnt as nat);
                }
            },
        }
    }
}

/// Coverage law: the scheduled windows tile the content with no gap; every
/// content position `t` lies in some window `k` of the schedule.
pub proof fn law_windows_cover_content(len: int, budget: int, stride: int, t: int)
    requires
        1 <= stride <= budget,
        0 <= t < len,
    ensures
        exists|k: int|
            0 <= k < window_count(len, budget, stride) && k * stride <= t < #[trigger] window_end(
                k,
                stride,
                budget,
                len,
            ),
{
    let n = window_count(len, budget, stride);
    lemma_window_schedule(len, budget, stride, 0);
    let q = t / stride;
    assert(q * stride <= t < q * stride + stride && q >= 0) by (nonlinear_arith)
        requires
            stride >= 1,
            t >= 0,
            q == t / stride,
    {
        vstd::arithmetic::div_mod::lemma_fundamental_div_mod(t, stride);
    }
    if q < n {
        lemma_window_schedule(len, budget, stride, q);
        assert(q * stride <= t < window_end(q, stride, budget, len));
    } else {
        let k = n - 1;
        lemma_window_schedule(len, budget, stride, k);
        assert(k * stride <= q * stride) by (nonlinear_arith)
            requires
                0 <= k <= q,
                stride >= 1,
        ;
        assert(window_end(k, stride, budget, len) == len);
        assert(k * stride <= t < window_end(k, stride, budget, len));
    }
}

/// Overlap law: every window before the last holds a full budget of content
/// tokens, the next one starts one stride later, and so consecutive windows
/// share `budget - stride` tokens: the requested overlap, capped one token
/// below the budget.
pub proof fn law_consecutive_windows_share_overlap(len: int, budget: int, overlap: int, k: int)
    requires
        budget >= 1,
        overlap >= 0,
        len >= 1,
        0 <= k,
        k + 1 < window_count(len, budget, stride_spec(budget, overlap)),
    ensures
        window_end(k, stride_spec(budget, overlap), budget, len) == k * stride_spec(budget, overlap)
            + budget,
        (k + 1) * stride_spec(budget, overlap) == k * stride_spec(budget, overlap) + stride_spec(
            budget,
            overlap,
        ),
        budget - stride_spec(budget, overlap) == (if overlap < budget {
            overlap
        } else {
            budget - 1
        }),
{
    let s = stride_spec(budget, overlap);
    lemma_window_schedule(len, budget, s, k);
    assert((k + 1) * s == k * s + s) by (nonlinear_arith);
}


/// What windowing `text` yields: a stored truncation that encoding would
/// panic on as [`Error::Tokenizer`] (see
/// [`crate::tokenize::check_truncation`]); else, whatever the tokenizer
/// returned, its failure as [`Error::Tokenizer`] when the text has no
/// encoding, or the [`windowing`] of an encoding the tokenizer can give for
/// this text, with one offset pair and one mask entry per id.
pub open spec fn text_windowing_matches(
    r: Result<Vec<IdWindow>, Error>,
    tokenizer: tokenizers::Tokenizer,
    text: Seq<char>,
    opts: (Option<usize>, usize),
    max_seq_len: usize,
    max_windows: usize,
) -> bool {
    match truncation_error(tokenizer) {
        Some(m) => r matches Err(Error::Tokenizer(x)) && x@ == m,
        None => {
            ||| (r matches Err(Error::Tokenizer(_)) && forall|
                ids: Seq<u32>,
                offsets: Seq<(usize, usize)>,
                mask: Seq<u32>,
            | !#[trigger] encodes_to(tokenizer, text, ids, offsets, mask))
            ||| exists|ids: Seq<u32>, offsets: Seq<(usize, usize)>, mask: Seq<u32>|
                {
                    &&& #[trigger] encodes_to(tokenizer, text, ids, offsets, mask)
                    &&& offsets.len() == ids.len()
                    &&& mask.len() == ids.len()
                    &&& windowing_matches(
                        r,
                        windowing(ids, offsets, mask, opts, max_seq_len as int, max_windows as int),
                        max_seq_len,
                        max_windows,
                    )
                }
        },
    }
}

/// Exact token-count windows of `text`: the tokenizer's stored truncation is
/// checked, the text is encoded once with special tokens, and the encoding is
/// windowed by [`id_windows`]. Each window is
/// `(byte_span, window_ids, content_token_count)`.
pub fn fixed_token_id_windows(
    tokenizer: &tokenizers::Tokenizer,
    text: &str,
    opts: &WindowOptions,
    max_seq_len: usize,
    max_windows: usize,
) -> (r: Result<Vec<IdWindow>, Error>)
    ensures
        text_windowing_matches(r, *tokenizer, text@, opts@, max_seq_len, max_windows),
{
    match crate::tokenize::check_truncation(tokenizer) {
        Ok(()) => {},
        Err(e) => {
            return Err(e);
        },
    }
    match crate::tokenize::encode_with_special_tokens(tokenizer, text) {
        Err(m) => Err(Error::Tokenizer(m)),
        Ok(enc) => {
            let r = id_windows(&enc, opts, max_seq_len, max_windows);
            assert(encodes_to(
                *tokenizer,
                text@,
                enc.ids@,
                enc.offsets@,
                enc.special_tokens_mask@,
            ));
            r
        },
    }
}

/// Windowing law: when the stored truncation is safe and the text has an
/// encoding, windowing it never fails on the tokenizer: the result is the
/// [`windowing`] of an encoding the tokenizer gives for this text, so its
/// only [`Error::Tokenizer`] is the zero budget left by a special-token
/// reserve that fills `max_seq_len`; a long text is windowed, not refused.
pub proof fn law_encodable_text_is_windowed(
    r: Result<Vec<IdWindow>, Error>,
    tokenizer: tokenizers::Tokenizer,
    text: Seq<char>,
    opts: (Option<usize>, usize),
    max_seq_len: usize,
    max_windows: usize,
    ids: Seq<u32>,
    offsets: Seq<(usize, usize)>,
    mask: Seq<u32>,
)
    requires
        text_windowing_matches(r, tokenizer, text, opts, max_seq_len, max_windows),
        truncation_error(tokenizer) is None,
        encodes_to(tokenizer, text, ids, offsets, mask),
    ensures
        exists|ids2: Seq<u32>, offsets2: Seq<(usize, usize)>, mask2: Seq<u32>|
            {
                &&& #[trigger] encodes_to(tokenizer, text, ids2, offsets2, mask2)
                &&& offsets2.len() == ids2.len()
                &&& mask2.len() == ids2.len()
                &&& windowing_matches(
                    r,
                    windowing(ids2, offsets2, mask2, opts, max_seq_len as int, max_windows as int),
                    max_seq_len,
                    max_windows,
                )
            },
        r matches Err(Error::Tokenizer(m)) ==> exists|reserve: nat|
            m@ == #[trigger] budget_zero_text(reserve, max_seq_len as nat),
        r matches Err(e) ==> (e is Tokenizer || e is BatchTooLarge),
{
    let (ids2, offsets2, mask2) = choose|ids2: Seq<u32>, offsets2: Seq<(usize, usize)>, mask2: Seq<u32>|
        {
            &&& #[trigger] encodes_to(tokenizer, text, ids2, offsets2, mask2)
            &&& offsets2.len() == ids2.len()
            &&& mask2.len() == ids2.len()
            &&& windowing_matches(
                r,
                windowing(ids2, offsets2, mask2, opts, max_seq_len as int, max_windows as int),
                max_seq_len,
                max_windows,
            )
        };
    match windowing(ids2, offsets2, mask2, opts, max_seq_len as int, max_windows as int) {
        Ok(_) => {},
        Err(WindowingFailure::BudgetZero { reserve }) => {
            assert(r matches Err(Error::Tokenizer(m)) && m@ == budget_zero_text(
                reserve,
                max_seq_len as nat,
            ));
        },
        Err(WindowingFailure::TooMany { got }) => {},
    }
}

} // verus!
