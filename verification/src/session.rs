//! The inference session's interface contract: the model inputs and output
//! the text encoder relies on, checked against the session's declared
//! outlets before any inference is run.

use ort::session::Session;
use ort::value::ValueType;
use vstd::prelude::*;
use crate::error::Error;
use crate::textfmt::str_eq;

verus! {

/// `ort::session::Session`, carried through the library as an opaque value.
#[verifier::external_type_specification]
#[verifier::external_body]
pub struct ExSession(Session);

/// The declared element type and shape of a tensor outlet (`-1` marks a
/// dynamic axis).
#[derive(Debug)]
pub struct TensorInfo {
    /// The element type's name, e.g. `Int64` or `Float32`.
    pub element_type: String,
    /// The declared shape.
    pub shape: Vec<i64>,
}

/// A named session input or output; `tensor` is `None` for a non-tensor
/// outlet.
#[derive(Debug)]
pub struct OutletInfo {
    /// The outlet's name.
    pub name: String,
    /// Its tensor type, when it is a tensor.
    pub tensor: Option<TensorInfo>,
}

/// An outlet as the contracts see it.
pub type OutletView = (Seq<char>, Option<(Seq<char>, Seq<i64>)>);

/// The contract view of one outlet.
pub open spec fn outlet_view(o: OutletInfo) -> OutletView {
    (
        o.name@,
        match o.tensor {
            Some(t) => Some((t.element_type@, t.shape@)),
            None => None,
        },
    )
}

/// The contract view of a list of outlets.
pub open spec fn outlets_view(os: Seq<OutletInfo>) -> Seq<OutletView> {
    os.map_values(|o: OutletInfo| outlet_view(o))
}

/// The inputs `Session::inputs` declares for this session, by name, element
/// type name and shape.
pub uninterp spec fn session_inputs_of(session: Session) -> Seq<OutletView>;

/// The outputs `Session::outputs` declares for this session, by name,
/// element type name and shape.
pub uninterp spec fn session_outputs_of(session: Session) -> Seq<OutletView>;

/// `Session::inputs`, each outlet's `name`, and for a tensor its element
/// type's `Debug` name and its shape, copied out in order. Named
/// [`session_inputs_of`].
#[verifier::external_body]
pub(crate) fn session_inputs(session: &Session) -> (r: Vec<OutletInfo>)
    ensures
        outlets_view(r@) == session_inputs_of(*session),
{
    session.inputs().iter().map(|o| OutletInfo {
        name: o.name().to_string(),
        tensor: match o.dtype() {
            ValueType::Tensor { ty, shape, .. } => Some(TensorInfo { element_type: format!("{ty:?}"), shape: shape.to_vec() }),
            _ => None,
        },
    }).collect()
}

/// `Session::outputs`, converted as [`session_inputs`]. Named
/// [`session_outputs_of`].
#[verifier::external_body]
pub(crate) fn session_outputs(session: &Session) -> (r: Vec<OutletInfo>)
    ensures
        outlets_view(r@) == session_outputs_of(*session),
{
    session.outputs().iter().map(|o| OutletInfo {
        name: o.name().to_string(),
        tensor: match o.dtype() {
            ValueType::Tensor { ty, shape, .. } => Some(TensorInfo { element_type: format!("{ty:?}"), shape: shape.to_vec() }),
            _ => None,
        },
    }).collect()
}

/// The first outlet at or after `i` named `name`.
pub open spec fn find_outlet(outlets: Seq<OutletView>, name: Seq<char>, i: int) -> Option<int>
    decreases outlets.len() - i,
{
    if i < 0 || i >= outlets.len() {
        None
    } else if outlets[i].0 == name {
        Some(i)
    } else {
        find_outlet(outlets, name, i + 1)
    }
}

/// The reason for a static axis where a dynamic one is required.
pub open spec fn dynamic_axis_text() -> Seq<char> {
    "dynamic axis (graph declares -1; static-shape exports incompatible with chunked APIs)"@
}

/// The reason for a static axis of the wrong size.
pub open spec fn static_dim_text() -> Seq<char> {
    "matching static dim"@
}

/// The first axis at or after `i` that breaks the expected shape: an
/// expected `-1` needs a dynamic axis; any other expected size needs that
/// size or a dynamic axis.
pub open spec fn axis_failure(actual: Seq<i64>, expected: Seq<i64>, i: int) -> Option<Seq<char>>
    decreases expected.len() - i,
{
    if i < 0 || i >= expected.len() {
        None
    } else if expected[i] == -1 && actual[i] != -1 {
        Some(dynamic_axis_text())
    } else if expected[i] != -1 && actual[i] != -1 && actual[i] != expected[i] {
        Some(static_dim_text())
    } else {
        axis_failure(actual, expected, i + 1)
    }
}

/// Whether the outlet named `name` satisfies the contract.
pub open spec fn outlet_ok(
    outlets: Seq<OutletView>,
    name: Seq<char>,
    dtype: Seq<char>,
    shape: Seq<i64>,
) -> bool {
    match find_outlet(outlets, name, 0) {
        None => false,
        Some(i) => match outlets[i].1 {
            None => false,
            Some((t, s)) => t == dtype && s.len() == shape.len() && axis_failure(s, shape, 0) is None,
        },
    }
}

/// The error reported for a violated outlet contract: a missing outlet, a
/// non-tensor outlet, the wrong element type, the wrong rank, or the first
/// offending axis.
pub open spec fn outlet_error_matches(
    r: Result<(), Error>,
    outlets: Seq<OutletView>,
    name: Seq<char>,
    dtype: Seq<char>,
    shape: Seq<i64>,
) -> bool {
    match find_outlet(outlets, name, 0) {
        None => r matches Err(Error::SessionShapeMismatch { input, expected, got }) && input@ == name
            && expected@ == "outlet present in session"@ && got@.len() == 0,
        Some(i) => match outlets[i].1 {
            None => r matches Err(Error::SessionShapeMismatch { input, expected, got }) && input@
                == name && expected@ == "tensor"@ && got@.len() == 0,
            Some((t, s)) => if t != dtype {
                r matches Err(Error::SessionContractMismatch { input, expected, got }) && input@
                    == name && expected@ == "matching tensor dtype"@ && got@ == t
            } else if s.len() != shape.len() {
                r matches Err(Error::SessionShapeMismatch { input, expected, got }) && input@
                    == name && expected@ == "matching tensor rank"@ && got@ == s
            } else {
                r matches Err(Error::SessionShapeMismatch { input, expected, got }) && input@
                    == name && axis_failure(s, shape, 0) == Some(expected@) && got@ == s
            },
        },
    }
}

/// The index of the first outlet named `name`.
fn find_outlet_index(outlets: &Vec<OutletInfo>, name: &str) -> (r: Option<usize>)
    ensures
        r matches Some(i) ==> find_outlet(outlets_view(outlets@), name@, 0) == Some(i as int)
            && i < outlets@.len(),
        r is None ==> find_outlet(outlets_view(outlets@), name@, 0) is None,
{
    let ghost ov = outlets_view(outlets@);
    let mut i: usize = 0;
    while i < outlets.len()
        invariant
            ov == outlets_view(outlets@),
            ov.len() == outlets@.len(),
            i <= outlets@.len(),
            find_outlet(ov, name@, 0) == find_outlet(ov, name@, i as int),
        decreases outlets@.len() - i,
    {
        assert(ov[i as int] == outlet_view(outlets@[i as int]));
        if str_eq(outlets[i].name.as_str(), name) {
            return Some(i);
        }
        i = i + 1;
    }
    None
}

/// Verifies that an outlet named `name` exists, is a tensor of element type
/// `expected_dtype`, and has a shape matching `expected_shape`, where `-1`
/// requires a dynamic axis and any other value requires that size (or a
/// dynamic axis).
pub fn check_outlet(
    outlets: &Vec<OutletInfo>,
    name: &'static str,
    expected_dtype: &str,
    expected_shape: &[i64],
) -> (r: Result<(), Error>)
    ensures
        r is Ok <==> outlet_ok(outlets_view(outlets@), name@, expected_dtype@, expected_shape@),
        r is Err ==> outlet_error_matches(
            r,
            outlets_view(outlets@),
            name@,
            expected_dtype@,
            expected_shape@,
        ),
{
    let ghost ov = outlets_view(outlets@);
    let i = match find_outlet_index(outlets, name) {
        None => {
            return Err(
                Error::SessionShapeMismatch {
                    input: name,
                    expected: "outlet present in session",
                    got: Vec::new(),
                },
            );
        },
        Some(i) => i,
    };
    assert(find_outlet(ov, name@, 0) == Some(i as int));
    let outlet = &outlets[i];
    assert(ov[i as int] == outlet_view(*outlet));
    match &outlet.tensor {
        None => Err(
            Error::SessionShapeMismatch { input: name, expected: "tensor", got: Vec::new() },
        ),
        Some(t) => {
            if !str_eq(t.element_type.as_str(), expected_dtype) {
                return Err(
                    Error::SessionContractMismatch {
                        input: name,
                        expected: "matching tensor dtype",
                        got: t.element_type.clone(),
                    },
                );
            }
            let actual = &t.shape;
            if actual.len() != expected_shape.len() {
                return Err(
                    Error::SessionShapeMismatch {
                        input: name,
                        expected: "matching tensor rank",
                        got: actual.clone(),
                    },
                );
            }
            let mut k: usize = 0;
            while k < expected_shape.len()
                invariant
                    ov == outlets_view(outlets@),
                    0 <= i < ov.len(),
                    find_outlet(ov, name@, 0) == Some(i as int),
                    ov[i as int].1 == Some((t.element_type@, actual@)),
                    t.element_type@ == expected_dtype@,
                    actual@.len() == expected_shape@.len(),
                    k <= expected_shape@.len(),
                    axis_failure(actual@, expected_shape@, 0) == axis_failure(
                        actual@,
                        expected_shape@,
                        k as int,
                    ),
                decreases expected_shape@.len() - k,
            {
                let want = expected_shape[k];
                let act = actual[k];
                if want == -1 {
                    if act != -1 {
                        return Err(
                            Error::SessionShapeMismatch {
                                input: name,
                                expected: "dynamic axis (graph declares -1; static-shape exports incompatible with chunked APIs)",
                                got: actual.clone(),
                            },
                        );
                    }
                } else {
                    if act != -1 && act != want {
                        return Err(
                            Error::SessionShapeMismatch {
                                input: name,
                                expected: "matching static dim",
                                got: actual.clone(),
                            },
                        );
                    }
                }
                k = k + 1;
            }
            Ok(())
        },
    }
}

/// The outlet contract of the text encoder: inputs `input_ids` and
/// `attention_mask` are `Int64` with both axes dynamic; output
/// `sentence_embedding` is `Float32` of shape `[dynamic, 768]`.
pub open spec fn text_session_ok(inputs: Seq<OutletView>, outputs: Seq<OutletView>) -> bool {
    &&& outlet_ok(inputs, "input_ids"@, "Int64"@, seq![-1i64, -1i64])
    &&& outlet_ok(inputs, "attention_mask"@, "Int64"@, seq![-1i64, -1i64])
    &&& outlet_ok(outputs, "sentence_embedding"@, "Float32"@, seq![-1i64, 768i64])
}

/// What checking the outlet contract yields: the first violated outlet's
/// error, in the order `input_ids`, `attention_mask`, `sentence_embedding`.
pub open spec fn text_session_matches(
    r: Result<(), Error>,
    inputs: Seq<OutletView>,
    outputs: Seq<OutletView>,
) -> bool {
    if !outlet_ok(inputs, "input_ids"@, "Int64"@, seq![-1i64, -1i64]) {
        outlet_error_matches(r, inputs, "input_ids"@, "Int64"@, seq![-1i64, -1i64])
    } else if !outlet_ok(inputs, "attention_mask"@, "Int64"@, seq![-1i64, -1i64]) {
        outlet_error_matches(r, inputs, "attention_mask"@, "Int64"@, seq![-1i64, -1i64])
    } else if !outlet_ok(outputs, "sentence_embedding"@, "Float32"@, seq![-1i64, 768i64]) {
        outlet_error_matches(r, outputs, "sentence_embedding"@, "Float32"@, seq![-1i64, 768i64])
    } else {
        r is Ok
    }
}

/// Checks the text encoder's outlet contract on declared inputs and
/// outputs (see [`text_session_matches`]).
pub fn check_text_session_outlets(inputs: &Vec<OutletInfo>, outputs: &Vec<OutletInfo>) -> (r:
    Result<(), Error>)
    ensures
        r is Ok <==> text_session_ok(outlets_view(inputs@), outlets_view(outputs@)),
        text_session_matches(r, outlets_view(inputs@), outlets_view(outputs@)),
{
    let dyn2: [i64; 2] = [-1, -1];
    let out_shape: [i64; 2] = [-1, 768];
    assert(dyn2@ =~= seq![-1i64, -1i64]);
    assert(out_shape@ =~= seq![-1i64, 768i64]);
    let a = check_outlet(inputs, "input_ids", "Int64", &dyn2);
    if a.is_err() {
        return a;
    }
    let b = check_outlet(inputs, "attention_mask", "Int64", &dyn2);
    if b.is_err() {
        return b;
    }
    check_outlet(outputs, "sentence_embedding", "Float32", &out_shape)
}

/// Checks the text encoder's outlet contract on a session's declared
/// inputs and outputs.
pub fn validate_text_session(session: &Session) -> (r: Result<(), Error>)
    ensures
        r is Ok <==> text_session_ok(session_inputs_of(*session), session_outputs_of(*session)),
        text_session_matches(r, session_inputs_of(*session), session_outputs_of(*session)),
{
    let inputs = session_inputs(session);
    let outputs = session_outputs(session);
    check_text_session_outlets(&inputs, &outputs)
}

/// Axis `k` of a declared shape fits the expected one: an expected `-1`
/// needs a dynamic (`-1`) axis; another expected size needs that size or a
/// dynamic axis.
pub open spec fn axis_fits(actual: Seq<i64>, expected: Seq<i64>, k: int) -> bool {
    if expected[k] == -1 {
        actual[k] == -1
    } else {
        actual[k] == -1 || actual[k] == expected[k]
    }
}

proof fn lemma_axis_failure_none_iff(actual: Seq<i64>, expected: Seq<i64>, i: int)
    requires
        0 <= i <= expected.len(),
        actual.len() == expected.len(),
    ensures
        axis_failure(actual, expected, i) is None <==> forall|k: int|
            i <= k < expected.len() ==> #[trigger] axis_fits(actual, expected, k),
    decreases expected.len() - i,
{
    if i < expected.len() {
        lemma_axis_failure_none_iff(actual, expected, i + 1);
        if axis_failure(actual, expected, i) is None {
            assert forall|k: int| i <= k < expected.len() implies #[trigger] axis_fits(
                actual,
                expected,
                k,
            ) by {
                if k > i {
                    assert(i + 1 <= k);
                }
            }
        } else if forall|k: int| i <= k < expected.len() ==> #[trigger] axis_fits(actual, expected, k) {
            assert(axis_fits(actual, expected, i));
            assert forall|k: int| i + 1 <= k < expected.len() implies #[trigger] axis_fits(
                actual,
                expected,
                k,
            ) by {}
        }
    }
}

/// Outlet law: the outlet check passes exactly when the first outlet named
/// `name` is a tensor of element type `dtype` whose declared shape has the
/// expected rank and fits it on every axis: wherever `-1` is expected the
/// graph declares the axis dynamic (a static sequence axis is refused), and
/// wherever a size is expected it declares that size or a dynamic axis.
pub proof fn law_outlet_ok_iff_every_axis_fits(
    outlets: Seq<OutletView>,
    name: Seq<char>,
    dtype: Seq<char>,
    shape: Seq<i64>,
)
    ensures
        outlet_ok(outlets, name, dtype, shape) <==> exists|i: int|
            {
                &&& find_outlet(outlets, name, 0) == Some(i)
                &&& #[trigger] outlets[i].1 matches Some((t, s))
                &&& t == dtype
                &&& s.len() == shape.len()
                &&& forall|k: int| 0 <= k < shape.len() ==> #[trigger] axis_fits(s, shape, k)
            },
        outlet_ok(outlets, name, dtype, shape) ==> forall|i: int, k: int|
            #![trigger outlets[i], shape[k]]
            find_outlet(outlets, name, 0) == Some(i) && 0 <= k < shape.len() && shape[k] == -1
                ==> (outlets[i].1 matches Some((t, s)) && s[k] == -1),
{
    match find_outlet(outlets, name, 0) {
        None => {},
        Some(i) => {
            match outlets[i].1 {
                None => {},
                Some((t, s)) => {
                    if s.len() == shape.len() {
                        lemma_axis_failure_none_iff(s, shape, 0);
                        if outlet_ok(outlets, name, dtype, shape) {
                            assert forall|k: int| 0 <= k < shape.len() && shape[k] == -1 implies s[k]
                                == -1 by {
                                assert(axis_fits(s, shape, k));
                            }
                        }
                    }
                },
            }
        },
    }
}

} // verus!
