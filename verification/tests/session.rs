use egemma::error::Error;
use egemma::session::{check_outlet, check_text_session_outlets, OutletInfo, TensorInfo};

fn tensor(name: &str, ty: &str, shape: &[i64]) -> OutletInfo {
    OutletInfo {
        name: name.to_string(),
        tensor: Some(TensorInfo { element_type: ty.to_string(), shape: shape.to_vec() }),
    }
}

fn good_inputs() -> Vec<OutletInfo> {
    vec![tensor("input_ids", "Int64", &[-1, -1]), tensor("attention_mask", "Int64", &[-1, -1])]
}

#[test]
fn text_session_contract_accepts_dynamic_export() {
    let outputs = vec![tensor("sentence_embedding", "Float32", &[-1, 768])];
    assert!(check_text_session_outlets(&good_inputs(), &outputs).is_ok());
    // A dynamic embedding axis is also fine.
    let dynamic = vec![tensor("sentence_embedding", "Float32", &[-1, -1])];
    assert!(check_text_session_outlets(&good_inputs(), &dynamic).is_ok());
}

#[test]
fn text_session_contract_rejects_static_batch_axis() {
    let inputs = vec![tensor("input_ids", "Int64", &[1, 2048]), tensor("attention_mask", "Int64", &[-1, -1])];
    let outputs = vec![tensor("sentence_embedding", "Float32", &[-1, 768])];
    match check_text_session_outlets(&inputs, &outputs) {
        Err(Error::SessionShapeMismatch { input, expected, got }) => {
            assert_eq!(input, "input_ids");
            assert!(expected.starts_with("dynamic axis"));
            assert_eq!(got, vec![1, 2048]);
        }
        other => panic!("got {other:?}"),
    }
}

#[test]
fn outlet_checks_report_each_violation() {
    let outs = vec![
        tensor("sentence_embedding", "Float16", &[-1, 768]),
        OutletInfo { name: "seq".to_string(), tensor: None },
        tensor("wide", "Float32", &[-1, 512]),
        tensor("rank", "Float32", &[-1]),
    ];
    match check_outlet(&outs, "missing", "Float32", &[-1]) {
        Err(Error::SessionShapeMismatch { expected, got, .. }) => {
            assert_eq!(expected, "outlet present in session");
            assert!(got.is_empty());
        }
        other => panic!("got {other:?}"),
    }
    match check_outlet(&outs, "seq", "Float32", &[-1]) {
        Err(Error::SessionShapeMismatch { expected, .. }) => assert_eq!(expected, "tensor"),
        other => panic!("got {other:?}"),
    }
    match check_outlet(&outs, "sentence_embedding", "Float32", &[-1, 768]) {
        Err(Error::SessionContractMismatch { expected, got, .. }) => {
            assert_eq!(expected, "matching tensor dtype");
            assert_eq!(got, "Float16");
        }
        other => panic!("got {other:?}"),
    }
    match check_outlet(&outs, "rank", "Float32", &[-1, 768]) {
        Err(Error::SessionShapeMismatch { expected, .. }) => {
            assert_eq!(expected, "matching tensor rank")
        }
        other => panic!("got {other:?}"),
    }
    match check_outlet(&outs, "wide", "Float32", &[-1, 768]) {
        Err(Error::SessionShapeMismatch { expected, got, .. }) => {
            assert_eq!(expected, "matching static dim");
            assert_eq!(got, vec![-1, 512]);
        }
        other => panic!("got {other:?}"),
    }
}
