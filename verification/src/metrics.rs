//! Daemon states, memory monitoring outcomes and GPU monitor identity for
//! metrics reporting.
use vstd::prelude::*;

use crate::text;

verus! {

/// Daemon state as reported to metrics clients.
#[derive(Debug, Clone, Copy, PartialEq, Eq, Structural)]
pub enum DaemonState {
    Idle,
    Recording,
    Processing,
    Error,
}

/// The lowercase name of a state.
pub open spec fn state_name(s: DaemonState) -> Seq<char> {
    match s {
        DaemonState::Idle => "idle"@,
        DaemonState::Recording => "recording"@,
        DaemonState::Processing => "processing"@,
        DaemonState::Error => "error"@,
    }
}

impl DaemonState {
    /// The lowercase name of the state, as it is displayed and serialized.
    pub fn as_str(&self) -> (r: &'static str)
        ensures
            r@ == state_name(*self),
    {
        match self {
            DaemonState::Idle => "idle",
            DaemonState::Recording => "recording",
            DaemonState::Processing => "processing",
            DaemonState::Error => "error",
        }
    }
}

/// Memory pressure levels.
#[derive(Debug, Clone, Copy, PartialEq, Eq, Structural)]
pub enum MemoryPressure {
    Normal,
    Warning,
    Critical,
}

/// Errors of memory monitoring.
#[derive(Debug, Clone, PartialEq, Eq)]
pub enum MemoryError {
    /// Failed to initialize system monitor
    SystemInit,
    /// Failed to initialize GPU monitoring
    GpuInit(String),
    /// GPU monitoring not available on this platform
    UnsupportedPlatform,
    /// Failed to query GPU memory
    GpuQuery(String),
}

fn concat(a: &str, b: &str) -> (r: String)
    ensures
        r@ == a@ + b@,
{
    let mut v = text::chars_of(a);
    let w = text::chars_of(b);
    text::extend_chars(&mut v, w.as_slice());
    text::string_of(v.as_slice())
}

impl MemoryError {
    /// The error's message.
    pub fn message(&self) -> (r: String)
        ensures
            self is SystemInit ==> r@ == "Failed to initialize system monitor"@,
            self matches MemoryError::GpuInit(m) ==> r@ == "Failed to initialize GPU monitoring: "@
                + m@,
            self is UnsupportedPlatform ==> r@ == "GPU monitoring not available on this platform"@,
            self matches MemoryError::GpuQuery(m) ==> r@ == "Failed to query GPU memory: "@ + m@,
    {
        match self {
            MemoryError::SystemInit => "Failed to initialize system monitor".to_owned(),
            MemoryError::GpuInit(m) => concat("Failed to initialize GPU monitoring: ", m.as_str()),
            MemoryError::UnsupportedPlatform => "GPU monitoring not available on this platform".to_owned(),
            MemoryError::GpuQuery(m) => concat("Failed to query GPU memory: ", m.as_str()),
        }
    }
}

/// The database path with a leading `~` expanded: `~/rest` becomes
/// `home/rest`, any other path starting with `~` is joined to the home
/// directory as it is; without a home directory, or without a leading `~`,
/// the path is kept.
pub open spec fn db_path_expanded(path: Seq<char>, home: Option<Seq<char>>) -> Seq<char> {
    match home {
        Some(h) => if path.len() > 0 && path[0] == '~' {
            if text::starts_with(path, "~/"@) {
                crate::paths::join_path(h, path.skip(2))
            } else {
                crate::paths::join_path(h, path)
            }
        } else {
            path
        },
        None => path,
    }
}

/// Expands a leading `~` in the metrics database path.
pub fn expand_db_path(path: &str, home: Option<&str>) -> (r: String)
    ensures
        r@ == db_path_expanded(
            path@,
            match home {
                Some(h) => Some(h@),
                None => None,
            },
        ),
{
    let p = text::chars_of(path);
    match home {
        Some(h) => {
            if p.len() > 0 && p[0] == '~' {
                let prefix = text::chars_of("~/");
                if text::has_prefix(p.as_slice(), prefix.as_slice()) {
                    proof {
                        reveal_strlit("~/");
                    }
                    let mut rest: Vec<char> = Vec::new();
                    let mut i: usize = 2;
                    while i < p.len()
                        invariant
                            2 <= i <= p@.len(),
                            rest@ == p@.subrange(2, i as int),
                        decreases p@.len() - i,
                    {
                        rest.push(p[i]);
                        assert(rest@ =~= p@.subrange(2, i + 1));
                        i = i + 1;
                    }
                    assert(rest@ =~= p@.skip(2));
                    let rs = text::string_of(rest.as_slice());
                    crate::paths::join(h, rs.as_str())
                } else {
                    crate::paths::join(h, path)
                }
            } else {
                path.to_owned()
            }
        },
        None => path.to_owned(),
    }
}

/// The display name of the GPU behind an execution provider.
pub open spec fn gpu_name_for(provider: Seq<char>) -> Seq<char> {
    if provider == "cuda"@ {
        "NVIDIA GPU (CUDA)"@
    } else if provider == "directml"@ {
        "DirectML GPU"@
    } else if provider == "coreml"@ {
        "Apple Silicon (CoreML)"@
    } else if provider == "cpu"@ {
        "CPU Fallback"@
    } else {
        "Unknown ("@ + provider + ")"@
    }
}

/// GPU monitoring identity: the provider and the name of its device.
pub struct GpuMonitor {
    provider: String,
    gpu_name: String,
}

impl GpuMonitor {
    pub closed spec fn provider_view(&self) -> Seq<char> {
        self.provider@
    }

    pub closed spec fn name_view(&self) -> Seq<char> {
        self.gpu_name@
    }

    /// A monitor for the given provider ("cuda", "directml", "coreml", "cpu").
    pub fn new(provider: &str) -> (r: Self)
        ensures
            r.provider_view() == provider@,
            r.name_view() == gpu_name_for(provider@),
    {
        let p = text::chars_of(provider);
        let gpu_name = if text::chars_eq_str(p.as_slice(), "cuda") {
            "NVIDIA GPU (CUDA)".to_owned()
        } else if text::chars_eq_str(p.as_slice(), "directml") {
            "DirectML GPU".to_owned()
        } else if text::chars_eq_str(p.as_slice(), "coreml") {
            "Apple Silicon (CoreML)".to_owned()
        } else if text::chars_eq_str(p.as_slice(), "cpu") {
            "CPU Fallback".to_owned()
        } else {
            let head = concat("Unknown (", provider);
            concat(head.as_str(), ")")
        };
        GpuMonitor { provider: provider.to_owned(), gpu_name }
    }

    /// The GPU provider name.
    pub fn provider(&self) -> (r: &str)
        ensures
            r@ == self.provider_view(),
    {
        self.provider.as_str()
    }

    /// The GPU device name.
    pub fn device_name(&self) -> (r: &str)
        ensures
            r@ == self.name_view(),
    {
        self.gpu_name.as_str()
    }
}

/// The memory provider used when no GPU can be monitored.
pub struct CpuProvider {
    device_name: String,
}

impl CpuProvider {
    pub closed spec fn name_view(&self) -> Seq<char> {
        self.device_name@
    }

    /// The fallback provider, named "CPU (No GPU)".
    pub fn new() -> (r: Self)
        ensures
            r.name_view() == "CPU (No GPU)"@,
    {
        CpuProvider { device_name: "CPU (No GPU)".to_owned() }
    }

    /// The device name.
    pub fn device_name(&self) -> (r: &str)
        ensures
            r@ == self.name_view(),
    {
        self.device_name.as_str()
    }

    /// Querying VRAM is never possible without a GPU.
    pub fn get_stats(&self) -> (r: MemoryError)
        ensures
            r == MemoryError::UnsupportedPlatform,
    {
        MemoryError::UnsupportedPlatform
    }
}

} // verus!
