use egemma::backend_select::{
    has_mlx_weights, prefer_mlx, route, DirFile, Platform, Routed, MLX_CONFIG, MLX_SAFETENSORS,
    MLX_SAFETENSORS_INDEX, MLX_SAFETENSORS_LEGACY, TEXT_ONNX,
};
use egemma::error::Error;
use egemma::options::Backend;

fn file(name: &str) -> DirFile {
    let extension = name.rsplit_once('.').map(|(_, e)| e.to_string());
    DirFile { name: name.to_string(), extension }
}

fn listing(names: &[&str]) -> Vec<DirFile> {
    names.iter().map(|n| file(n)).collect()
}

const APPLE: Platform = Platform { apple_silicon: true, npz: false, gguf: false };
const LINUX: Platform = Platform { apple_silicon: false, npz: false, gguf: false };

#[test]
fn route_onnx_is_always_onnx() {
    let empty = listing(&[]);
    for p in [APPLE, LINUX] {
        let r = route(&empty, Backend::Onnx, &[TEXT_ONNX], p, "/tmp/x").expect("onnx route ok");
        assert!(matches!(r, Routed::Onnx));
    }
}

#[test]
fn route_mlx_unavailable_off_apple_silicon() {
    let dir = listing(&[MLX_CONFIG, MLX_SAFETENSORS]);
    let err = route(&dir, Backend::Mlx, &[TEXT_ONNX], LINUX, "/tmp/x")
        .err()
        .expect("forcing Mlx off Apple Silicon must error");
    match err {
        Error::BackendUnavailable { requested, reason } => {
            assert_eq!(requested, Backend::Mlx);
            assert_eq!(reason, "the MLX backend is only available on aarch64-apple-darwin");
        }
        other => panic!("got {other:?}"),
    }
    assert!(matches!(
        route(&dir, Backend::Auto, &[TEXT_ONNX], LINUX, "/tmp/x"),
        Ok(Routed::Onnx)
    ));
}

#[test]
fn route_mlx_unavailable_when_no_mlx_checkpoint() {
    let empty = listing(&[]);
    let err = route(&empty, Backend::Mlx, &[TEXT_ONNX], APPLE, "/tmp/x")
        .err()
        .expect("forcing Mlx with no checkpoint must error");
    match err {
        Error::BackendUnavailable { reason, .. } => assert_eq!(
            reason,
            "no MLX checkpoint (config.json + a weight file) in /tmp/x"
        ),
        other => panic!("got {other:?}"),
    }
}

#[test]
fn prefer_mlx_true_when_mlx_weights_present() {
    let dir = listing(&[MLX_CONFIG, MLX_SAFETENSORS]);
    assert!(prefer_mlx(&dir, &[TEXT_ONNX], APPLE));
    assert!(matches!(
        route(&dir, Backend::Auto, &[TEXT_ONNX], APPLE, "d"),
        Ok(Routed::Mlx)
    ));
}

#[test]
fn prefer_mlx_true_for_sharded_index_only() {
    let dir = listing(&[MLX_CONFIG, MLX_SAFETENSORS_INDEX]);
    assert!(prefer_mlx(&dir, &[TEXT_ONNX], APPLE));
}

#[test]
fn prefer_mlx_true_for_legacy_weights_safetensors() {
    let dir = listing(&[MLX_CONFIG, MLX_SAFETENSORS_LEGACY]);
    assert!(prefer_mlx(&dir, &[TEXT_ONNX], APPLE));
}

#[test]
fn prefer_mlx_false_for_onnx_only_dir() {
    let dir = listing(&[TEXT_ONNX, MLX_CONFIG]);
    assert!(!prefer_mlx(&dir, &[TEXT_ONNX], APPLE));
}

#[test]
fn prefer_mlx_false_when_onnx_graph_present_alongside_mlx_weights() {
    let dir = listing(&[MLX_CONFIG, MLX_SAFETENSORS, TEXT_ONNX]);
    assert!(!prefer_mlx(&dir, &[TEXT_ONNX], APPLE));
    assert!(matches!(
        route(&dir, Backend::Auto, &[TEXT_ONNX], APPLE, "d"),
        Ok(Routed::Onnx)
    ));
    // Forcing MLX still finds the checkpoint.
    assert!(matches!(
        route(&dir, Backend::Mlx, &[TEXT_ONNX], APPLE, "d"),
        Ok(Routed::Mlx)
    ));
}

#[test]
fn prefer_mlx_npz_only_routes_iff_npz_feature() {
    let dir = listing(&[MLX_CONFIG, "model.npz"]);
    assert!(!prefer_mlx(&dir, &[TEXT_ONNX], APPLE));
    let npz = Platform { npz: true, ..APPLE };
    assert!(prefer_mlx(&dir, &[TEXT_ONNX], npz));
}

#[test]
fn prefer_mlx_gguf_only_routes_iff_gguf_feature() {
    let dir = listing(&[MLX_CONFIG, "model.gguf"]);
    assert!(!prefer_mlx(&dir, &[TEXT_ONNX], APPLE));
    let gguf = Platform { gguf: true, ..APPLE };
    assert!(prefer_mlx(&dir, &[TEXT_ONNX], gguf));
    assert!(has_mlx_weights(&dir, gguf));
    assert!(!has_mlx_weights(&dir, APPLE));
}
