//! Checkpoint-directory layout names and the backend routing decision.
//!
//! The decision reads a listing of the regular files of a checkpoint
//! directory. On Apple Silicon a directory is routed to MLX when it holds an
//! MLX `config.json`, a weight set in an enabled format, and none of the ONNX
//! graphs the calling constructor needs; the presence of a required graph
//! means an ONNX checkpoint. Elsewhere only ONNX exists.

use vstd::prelude::*;
use vstd::string::StringExecFns;
use crate::error::Error;
use crate::options::Backend;
use crate::textfmt::str_eq;

verus! {

/// The text-encoder ONNX graph file name inside a checkpoint directory.
pub const TEXT_ONNX: &'static str = "model.onnx";

/// The MLX config file name.
pub const MLX_CONFIG: &'static str = "config.json";

/// The MLX single-file safetensors weights name.
pub const MLX_SAFETENSORS: &'static str = "model.safetensors";

/// The legacy single-file safetensors weights name.
pub const MLX_SAFETENSORS_LEGACY: &'static str = "weights.safetensors";

/// The sharded-checkpoint index file name.
pub const MLX_SAFETENSORS_INDEX: &'static str = "model.safetensors.index.json";

/// One regular file of a checkpoint directory: its file name and its
/// extension (the part after the last `.` of the name, when there is one).
#[derive(Debug)]
pub struct DirFile {
    /// The file name.
    pub name: String,
    /// The file name's extension.
    pub extension: Option<String>,
}

/// The platform and enabled weight formats the routing decides for.
#[derive(Clone, Copy, Debug)]
pub struct Platform {
    /// Running on `aarch64-apple-darwin`, where the MLX backend exists.
    pub apple_silicon: bool,
    /// `*.npz` weights are loadable.
    pub npz: bool,
    /// `*.gguf` weights are loadable.
    pub gguf: bool,
}

/// The backend a checkpoint directory is routed to.
#[derive(Clone, Copy, Debug, PartialEq, Eq, Structural)]
pub enum Routed {
    /// Load via ONNX Runtime.
    Onnx,
    /// Load via the MLX backend.
    Mlx,
}

/// The listing holds a file named `name`.
pub open spec fn lists_file(files: Seq<DirFile>, name: Seq<char>) -> bool {
    exists|i: int| 0 <= i < files.len() && (#[trigger] files[i]).name@ == name
}

/// The listing holds a file with extension `ext`.
pub open spec fn lists_extension(files: Seq<DirFile>, ext: Seq<char>) -> bool {
    exists|i: int|
        0 <= i < files.len() && ((#[trigger] files[i]).extension matches Some(e) && e@ == ext)
}

/// An MLX weight set in an enabled format is present.
pub open spec fn mlx_weights_spec(files: Seq<DirFile>, platform: Platform) -> bool {
    ||| lists_file(files, MLX_SAFETENSORS_INDEX@)
    ||| lists_file(files, MLX_SAFETENSORS@)
    ||| lists_file(files, MLX_SAFETENSORS_LEGACY@)
    ||| platform.npz && lists_extension(files, "npz"@)
    ||| platform.gguf && lists_extension(files, "gguf"@)
}

/// One of the required ONNX graphs is present.
pub open spec fn lists_any(files: Seq<DirFile>, names: Seq<&str>) -> bool {
    exists|j: int| 0 <= j < names.len() && lists_file(files, (#[trigger] names[j])@)
}

/// The directory is an MLX checkpoint for the calling constructor.
pub open spec fn prefer_mlx_spec(files: Seq<DirFile>, required_onnx: Seq<&str>, platform: Platform) -> bool {
    &&& lists_file(files, MLX_CONFIG@)
    &&& mlx_weights_spec(files, platform)
    &&& !lists_any(files, required_onnx)
}

/// The reason given when forcing MLX off Apple Silicon.
pub open spec fn mlx_off_platform_text() -> Seq<char> {
    "the MLX backend is only available on aarch64-apple-darwin"@
}

/// The reason given when forcing MLX on a directory without an MLX
/// checkpoint.
pub open spec fn no_mlx_checkpoint_text(dir: Seq<char>) -> Seq<char> {
    "no MLX checkpoint (config.json + a weight file) in "@ + dir
}

/// Whether the listing holds a file named `name`.
pub fn has_file(files: &Vec<DirFile>, name: &str) -> (r: bool)
    ensures
        r == lists_file(files@, name@),
{
    let mut i: usize = 0;
    while i < files.len()
        invariant
            i <= files@.len(),
            forall|j: int| 0 <= j < i ==> files@[j].name@ != name@,
        decreases files@.len() - i,
    {
        if str_eq(files[i].name.as_str(), name) {
            return true;
        }
        i = i + 1;
    }
    false
}

/// Whether the listing holds at least one file with the given extension.
pub fn has_extension(files: &Vec<DirFile>, extension: &str) -> (r: bool)
    ensures
        r == lists_extension(files@, extension@),
{
    let mut i: usize = 0;
    while i < files.len()
        invariant
            i <= files@.len(),
            forall|j: int|
                0 <= j < i ==> !((#[trigger] files@[j]).extension matches Some(e) && e@ == extension@),
        decreases files@.len() - i,
    {
        match &files[i].extension {
            Some(e) => {
                if str_eq(e.as_str(), extension) {
                    return true;
                }
            },
            None => {},
        }
        i = i + 1;
    }
    false
}

/// Whether the listing holds an MLX weight set in any enabled format: a
/// sharded `model.safetensors.index.json`, a single `model.safetensors` or
/// the legacy `weights.safetensors` always; a `*.npz` or `*.gguf` only when
/// that format is enabled.
pub fn has_mlx_weights(files: &Vec<DirFile>, platform: Platform) -> (r: bool)
    ensures
        r == mlx_weights_spec(files@, platform),
{
    if has_file(files, MLX_SAFETENSORS_INDEX) {
        return true;
    }
    if has_file(files, MLX_SAFETENSORS) {
        return true;
    }
    if has_file(files, MLX_SAFETENSORS_LEGACY) {
        return true;
    }
    if platform.npz && has_extension(files, "npz") {
        return true;
    }
    if platform.gguf && has_extension(files, "gguf") {
        return true;
    }
    false
}

/// Whether the MLX backend should load the directory for the calling
/// constructor: an MLX `config.json` and a weight set are present and none
/// of `required_onnx` (the graphs the caller loads) is.
pub fn prefer_mlx(files: &Vec<DirFile>, required_onnx: &[&str], platform: Platform) -> (r: bool)
    ensures
        r == prefer_mlx_spec(files@, required_onnx@, platform),
{
    if !has_file(files, MLX_CONFIG) {
        return false;
    }
    if !has_mlx_weights(files, platform) {
        return false;
    }
    let mut j: usize = 0;
    while j < required_onnx.len()
        invariant
            j <= required_onnx@.len(),
            forall|t: int| 0 <= t < j ==> !lists_file(files@, (#[trigger] required_onnx@[t])@),
        decreases required_onnx@.len() - j,
    {
        if has_file(files, required_onnx[j]) {
            return false;
        }
        j = j + 1;
    }
    true
}

/// The routing decision: `Onnx` always loads ONNX; off Apple Silicon `Auto`
/// loads ONNX and `Mlx` is unavailable; on Apple Silicon `Auto` follows
/// [`prefer_mlx`] and `Mlx` needs an MLX `config.json` and a weight set.
pub open spec fn route_spec(
    files: Seq<DirFile>,
    backend: Backend,
    required_onnx: Seq<&str>,
    platform: Platform,
    dir: Seq<char>,
) -> Result<Routed, Seq<char>> {
    match backend {
        Backend::Onnx => Ok(Routed::Onnx),
        Backend::Auto => if platform.apple_silicon && prefer_mlx_spec(files, required_onnx, platform) {
            Ok(Routed::Mlx)
        } else {
            Ok(Routed::Onnx)
        },
        Backend::Mlx => if !platform.apple_silicon {
            Err(mlx_off_platform_text())
        } else if lists_file(files, MLX_CONFIG@) && mlx_weights_spec(files, platform) {
            Ok(Routed::Mlx)
        } else {
            Err(no_mlx_checkpoint_text(dir))
        },
    }
}

/// Decide which backend loads the directory listed by `files` (shown to
/// users as `dir`), honoring an explicit `backend`. A refused request is
/// [`Error::BackendUnavailable`] with `requested: Mlx` and the reason.
pub fn route(
    files: &Vec<DirFile>,
    backend: Backend,
    required_onnx: &[&str],
    platform: Platform,
    dir: &str,
) -> (r: Result<Routed, Error>)
    ensures
        match route_spec(files@, backend, required_onnx@, platform, dir@) {
            Ok(x) => r matches Ok(y) && y == x,
            Err(reason) => r matches Err(Error::BackendUnavailable { requested, reason: m })
                && requested == Backend::Mlx && m@ == reason,
        },
{
    match backend {
        Backend::Onnx => Ok(Routed::Onnx),
        Backend::Auto => {
            if platform.apple_silicon && prefer_mlx(files, required_onnx, platform) {
                Ok(Routed::Mlx)
            } else {
                Ok(Routed::Onnx)
            }
        },
        Backend::Mlx => {
            if !platform.apple_silicon {
                Err(
                    Error::BackendUnavailable {
                        requested: Backend::Mlx,
                        reason: String::from_str(
                            "the MLX backend is only available on aarch64-apple-darwin",
                        ),
                    },
                )
            } else if has_file(files, MLX_CONFIG) && has_mlx_weights(files, platform) {
                Ok(Routed::Mlx)
            } else {
                let mut reason = String::from_str(
                    "no MLX checkpoint (config.json + a weight file) in ",
                );
                reason.append(dir);
                Err(Error::BackendUnavailable { requested: Backend::Mlx, reason })
            }
        },
    }
}

/// Forcing ONNX always routes to ONNX, whatever the directory holds.
pub proof fn law_forced_onnx_is_onnx(
    files: Seq<DirFile>,
    required_onnx: Seq<&str>,
    platform: Platform,
    dir: Seq<char>,
)
    ensures
        route_spec(files, Backend::Onnx, required_onnx, platform, dir) == Ok::<
            Routed,
            Seq<char>,
        >(Routed::Onnx),
{
}

/// Off Apple Silicon, automatic routing is ONNX and forcing MLX is refused.
pub proof fn law_off_apple_silicon_only_onnx(
    files: Seq<DirFile>,
    required_onnx: Seq<&str>,
    platform: Platform,
    dir: Seq<char>,
)
    requires
        !platform.apple_silicon,
    ensures
        route_spec(files, Backend::Auto, required_onnx, platform, dir) == Ok::<
            Routed,
            Seq<char>,
        >(Routed::Onnx),
        route_spec(files, Backend::Mlx, required_onnx, platform, dir) is Err,
{
}

/// A required ONNX graph in the directory wins: the directory is never
/// preferred for MLX and automatic routing picks ONNX.
pub proof fn law_required_graph_routes_onnx(
    files: Seq<DirFile>,
    required_onnx: Seq<&str>,
    platform: Platform,
    dir: Seq<char>,
    j: int,
)
    requires
        0 <= j < required_onnx.len(),
        lists_file(files, required_onnx[j]@),
    ensures
        !prefer_mlx_spec(files, required_onnx, platform),
        route_spec(files, Backend::Auto, required_onnx, platform, dir) == Ok::<
            Routed,
            Seq<char>,
        >(Routed::Onnx),
{
    assert(lists_any(files, required_onnx));
}

/// Whenever automatic routing picks MLX, forcing MLX succeeds too: the probe
/// and the forced check agree on what an MLX checkpoint is.
pub proof fn law_auto_mlx_implies_forced_mlx(
    files: Seq<DirFile>,
    required_onnx: Seq<&str>,
    platform: Platform,
    dir: Seq<char>,
)
    requires
        route_spec(files, Backend::Auto, required_onnx, platform, dir) == Ok::<
            Routed,
            Seq<char>,
        >(Routed::Mlx),
    ensures
        route_spec(files, Backend::Mlx, required_onnx, platform, dir) == Ok::<
            Routed,
            Seq<char>,
        >(Routed::Mlx),
{
}

/// Forced-MLX law: on Apple Silicon, forcing MLX succeeds exactly when the
/// listing holds `config.json` and an MLX weight set in an enabled format;
/// otherwise it is refused with the missing-checkpoint reason naming `dir`
/// (a `config.json` alone, as an ONNX export ships, is not enough).
pub proof fn law_forced_mlx_needs_config_and_weights(
    files: Seq<DirFile>,
    required_onnx: Seq<&str>,
    platform: Platform,
    dir: Seq<char>,
)
    requires
        platform.apple_silicon,
    ensures
        route_spec(files, Backend::Mlx, required_onnx, platform, dir) == Ok::<Routed, Seq<char>>(
            Routed::Mlx,
        ) <==> (lists_file(files, "config.json"@) && mlx_weights_spec(files, platform)),
        !(lists_file(files, "config.json"@) && mlx_weights_spec(files, platform)) ==> route_spec(
            files,
            Backend::Mlx,
            required_onnx,
            platform,
            dir,
        ) == Err::<Routed, Seq<char>>(no_mlx_checkpoint_text(dir)),
        route_spec(files, Backend::Mlx, required_onnx, platform, dir) != Ok::<Routed, Seq<char>>(
            Routed::Onnx,
        ),
{
    assert(MLX_CONFIG@ == "config.json"@);
}

} // verus!
