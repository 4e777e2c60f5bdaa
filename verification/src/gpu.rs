//! The choice of the inference backend: CUDA, then Vulkan, then the CPU, or
//! the one that `RAKUKAN_BACKEND` names.
use vstd::prelude::*;

use crate::text::{all_ascii, ascii_lower, chars_of, lowercase_of, owned, push_str, str_eq, to_lowercase};

verus! {

/// The backend that runs the model.
#[derive(Debug, Clone, Copy, PartialEq, Eq, Structural)]
pub enum Backend {
    /// CUDA (NVIDIA only, fastest).
    Cuda,
    /// Vulkan (AMD, NVIDIA and Intel GPUs).
    Vulkan,
    /// The CPU (slow, the fallback).
    Cpu,
}

pub open spec fn spec_backend_label(b: Backend) -> Seq<char> {
    match b {
        Backend::Cuda => "CUDA"@,
        Backend::Vulkan => "Vulkan"@,
        Backend::Cpu => "CPU"@,
    }
}

impl Backend {
    /// The backend's name as shown (`CUDA`, `Vulkan`, `CPU`).
    pub fn to_string(&self) -> (s: String)
        ensures
            s@ == spec_backend_label(*self),
    {
        match self {
            Backend::Cuda => owned("CUDA"),
            Backend::Vulkan => owned("Vulkan"),
            Backend::Cpu => owned("CPU"),
        }
    }
}

/// A GPU as the system lists it.
#[derive(Debug, Clone)]
pub struct GpuInfo {
    pub name: String,
    pub vram_mb: Option<u64>,
}

/// The backend chosen, why, and the GPUs seen.
#[derive(Debug)]
pub struct BackendSelection {
    pub backend: Backend,
    pub reason: String,
    pub detected_gpus: Vec<GpuInfo>,
}

/// The backend a (lower-cased) name forces: `cuda`, `vulkan`, `cpu`; the CPU
/// for any other name.
pub open spec fn spec_backend_named(name: Seq<char>) -> Backend {
    if name == "cuda"@ {
        Backend::Cuda
    } else if name == "vulkan"@ {
        Backend::Vulkan
    } else {
        Backend::Cpu
    }
}

/// The reason given for a forced backend.
pub open spec fn forced_reason(forced: Seq<char>) -> Seq<char> {
    "\u{74B0}\u{5883}\u{5909}\u{6570} RAKUKAN_BACKEND='"@ + forced + "' \u{3067}\u{6307}\u{5B9A}"@
}

/// The selection that `RAKUKAN_BACKEND=forced` makes: the backend its
/// lower-cased value names (see `spec_backend_named`), and no GPU list.
pub fn select_forced(forced: &str) -> (s: BackendSelection)
    ensures
        s.backend == spec_backend_named(lowercase_of(forced@)),
        all_ascii(forced@) ==> s.backend == spec_backend_named(
            forced@.map_values(|c: char| ascii_lower(c)),
        ),
        s.reason@ == forced_reason(forced@),
        s.detected_gpus@.len() == 0,
{
    let lower = to_lowercase(forced);
    let backend = if str_eq(lower.as_str(), "cuda") {
        Backend::Cuda
    } else if str_eq(lower.as_str(), "vulkan") {
        Backend::Vulkan
    } else {
        Backend::Cpu
    };
    let mut reason = owned("\u{74B0}\u{5883}\u{5909}\u{6570} RAKUKAN_BACKEND='");
    push_str(&mut reason, forced);
    push_str(&mut reason, "' \u{3067}\u{6307}\u{5B9A}");
    BackendSelection { backend, reason, detected_gpus: Vec::new() }
}

/// Whether `needle` occurs in `hay`.
pub open spec fn spec_contains(hay: Seq<char>, needle: Seq<char>) -> bool {
    exists|i: int| 0 <= i <= hay.len() - needle.len() && #[trigger] hay.subrange(i, i + needle.len()) == needle
}

fn contains_chars(hay: &Vec<char>, needle: &Vec<char>) -> (b: bool)
    ensures
        b == spec_contains(hay@, needle@),
{
    if needle.len() > hay.len() {
        return false;
    }
    let mut i: usize = 0;
    while i <= hay.len() - needle.len()
        invariant
            needle.len() <= hay.len(),
            i <= hay.len() - needle.len() + 1,
            forall|j: int| 0 <= j < i ==> #[trigger] hay@.subrange(j, j + needle.len()) != needle@,
        decreases hay.len() - i,
    {
        let mut k: usize = 0;
        while k < needle.len() && hay[i + k] == needle[k]
            invariant
                k <= needle.len(),
                i + needle.len() <= hay.len(),
                forall|m: int| 0 <= m < k ==> hay@[i + m] == #[trigger] needle@[m],
            decreases needle.len() - k,
        {
            k = k + 1;
        }
        if k == needle.len() {
            assert(hay@.subrange(i as int, i + needle.len()) =~= needle@);
            return true;
        }
        assert(hay@.subrange(i as int, i + needle.len())[k as int] != needle@[k as int]);
        i = i + 1;
    }
    false
}

/// Whether a GPU's lower-cased name mentions NVIDIA.
pub open spec fn spec_is_nvidia(g: GpuInfo) -> bool {
    spec_contains(lowercase_of(g.name@), "nvidia"@)
}

pub fn has_nvidia_gpu(gpus: &[GpuInfo]) -> (b: bool)
    ensures
        b == exists|i: int| 0 <= i < gpus@.len() && spec_is_nvidia(#[trigger] gpus@[i]),
{
    let needle = chars_of("nvidia");
    let mut i: usize = 0;
    while i < gpus.len()
        invariant
            i <= gpus.len(),
            needle@ == "nvidia"@,
            forall|j: int| 0 <= j < i ==> !spec_is_nvidia(#[trigger] gpus@[j]),
        decreases gpus.len() - i,
    {
        let lower = to_lowercase(gpus[i].name.as_str());
        let hay = chars_of(lower.as_str());
        if contains_chars(&hay, &needle) {
            return true;
        }
        i = i + 1;
    }
    false
}

/// The backend the machine supports: CUDA with an NVIDIA GPU, `nvidia-smi`
/// and the CUDA toolkit; else Vulkan if a Vulkan driver is there; else the
/// CPU.
pub open spec fn spec_detected_backend(
    nvidia: bool,
    nvidia_smi: bool,
    nvcc: bool,
    vulkan: bool,
) -> Backend {
    if nvidia && nvidia_smi && nvcc {
        Backend::Cuda
    } else if vulkan {
        Backend::Vulkan
    } else {
        Backend::Cpu
    }
}

/// Chooses the backend from what was detected: the GPUs, whether
/// `nvidia-smi` and `nvcc` are on the path, and whether Vulkan is installed.
pub fn choose_backend(gpus: Vec<GpuInfo>, nvidia_smi: bool, nvcc: bool, vulkan: bool) -> (s:
    BackendSelection)
    ensures
        s.backend == spec_detected_backend(
            exists|i: int| 0 <= i < gpus@.len() && spec_is_nvidia(#[trigger] gpus@[i]),
            nvidia_smi,
            nvcc,
            vulkan,
        ),
        s.detected_gpus@ == gpus@,
{
    if has_nvidia_gpu(gpus.as_slice()) && nvidia_smi && nvcc {
        return BackendSelection {
            backend: Backend::Cuda,
            reason: owned("Nvidia GPU + CUDA Toolkit \u{3092}\u{691C}\u{51FA}"),
            detected_gpus: gpus,
        };
    }
    if vulkan {
        return BackendSelection {
            backend: Backend::Vulkan,
            reason: owned("Vulkan \u{5BFE}\u{5FDC} GPU \u{3092}\u{691C}\u{51FA}"),
            detected_gpus: gpus,
        };
    }
    BackendSelection {
        backend: Backend::Cpu,
        reason: owned(
            "Vulkan/CUDA \u{304C}\u{5229}\u{7528}\u{3067}\u{304D}\u{306A}\u{3044}\u{305F}\u{3081} CPU \u{3092}\u{4F7F}\u{7528}\u{FF08}\u{4F4E}\u{901F}\u{FF09}",
        ),
        detected_gpus: gpus,
    }
}

} // verus!
