//! GPU detection and provider selection.
//!
//! Probing the machine (running `nvidia-smi`, asking the OS which CPU it
//! runs on) is left to the caller; this module decides from what the probes
//! found: which execution provider to use, and how much video memory the
//! NVIDIA query reported.
use vstd::prelude::*;

use crate::text;

verus! {

/// The operating system the daemon runs on.
#[derive(Debug, Clone, Copy, PartialEq, Eq, Structural)]
pub enum Platform {
    Linux,
    Windows,
    MacOs,
}

/// What the hardware probes found.
#[derive(Debug, Clone, Copy, PartialEq, Eq, Structural)]
pub struct GpuProbe {
    /// The platform the probes ran on.
    pub platform: Platform,
    /// Apple Silicon was found (CoreML).
    pub coreml_available: bool,
    /// A Direct3D 12 device could be created (DirectML).
    pub directml_available: bool,
    /// `nvidia-smi` ran successfully (CUDA).
    pub cuda_available: bool,
}

/// The provider chosen for the probes, in priority order: CoreML on macOS,
/// DirectML on Windows, CUDA outside macOS, otherwise none (CPU fallback).
pub open spec fn gpu_provider(probe: GpuProbe) -> Option<Seq<char>> {
    if probe.platform == Platform::MacOs && probe.coreml_available {
        Some("coreml"@)
    } else if probe.platform == Platform::Windows && probe.directml_available {
        Some("directml"@)
    } else if probe.platform != Platform::MacOs && probe.cuda_available {
        Some("cuda"@)
    } else {
        None
    }
}

pub open spec fn opt_string_view(o: Option<String>) -> Option<Seq<char>> {
    match o {
        Some(s) => Some(s@),
        None => None,
    }
}

/// Detects the best available GPU provider from what the probes found.
pub fn detect_gpu_provider(probe: GpuProbe) -> (r: Option<String>)
    ensures
        opt_string_view(r) == gpu_provider(probe),
{
    if probe.platform == Platform::MacOs && probe.coreml_available {
        return Some("coreml".to_owned());
    }
    if probe.platform == Platform::Windows && probe.directml_available {
        return Some("directml".to_owned());
    }
    if probe.platform != Platform::MacOs && probe.cuda_available {
        return Some("cuda".to_owned());
    }
    None
}

/// The video memory that `nvidia-smi --query-gpu=memory.total,memory.free
/// --format=csv,noheader,nounits` reported: the output is trimmed, split at
/// commas, and the first two fields, trimmed, must parse as numbers with a
/// positive total and no more free than total memory.
pub open spec fn vram_report(output: Seq<char>) -> Option<(u64, u64)> {
    let line = text::trim(output);
    let i = text::find_char(line, ',');
    if line.len() == 0 || i >= line.len() {
        None
    } else {
        let rest = line.skip(i + 1);
        let j = text::find_char(rest, ',');
        match (
            text::parse_u64(text::trim(line.take(i))),
            text::parse_u64(text::trim(rest.take(j))),
        ) {
            (Some(total), Some(free)) => if total == 0 || free > total {
                None
            } else {
                Some((total, free))
            },
            _ => None,
        }
    }
}

/// Parses the `total, free` line (in MB) that `nvidia-smi` printed.
pub fn parse_nvidia_vram(output: &str) -> (r: Option<(u64, u64)>)
    ensures
        r == vram_report(output@),
{
    let chars = text::chars_of(output);
    let line = text::trim_chars(chars.as_slice());
    if line.len() == 0 {
        return None;
    }
    let i = text::find_char_index(line.as_slice(), ',');
    proof {
        text::lemma_find_char(line@, ',');
    }
    if i >= line.len() {
        return None;
    }
    let mut first: Vec<char> = Vec::new();
    let mut k: usize = 0;
    while k < i
        invariant
            i < line@.len(),
            k <= i,
            first@ == line@.take(k as int),
        decreases i - k,
    {
        first.push(line[k]);
        assert(first@ =~= line@.take(k + 1));
        k = k + 1;
    }
    let mut rest: Vec<char> = Vec::new();
    let mut m: usize = i + 1;
    while m < line.len()
        invariant
            i < line@.len(),
            i + 1 <= m <= line@.len(),
            rest@ == line@.subrange(i + 1, m as int),
        decreases line@.len() - m,
    {
        rest.push(line[m]);
        assert(rest@ =~= line@.subrange(i + 1, m + 1));
        m = m + 1;
    }
    assert(rest@ =~= line@.skip(i + 1));
    let j = text::find_char_index(rest.as_slice(), ',');
    proof {
        text::lemma_find_char(rest@, ',');
    }
    let mut second: Vec<char> = Vec::new();
    let mut n: usize = 0;
    while n < j
        invariant
            j <= rest@.len(),
            n <= j,
            second@ == rest@.take(n as int),
        decreases j - n,
    {
        second.push(rest[n]);
        assert(second@ =~= rest@.take(n + 1));
        n = n + 1;
    }
    let total_field = text::trim_chars(first.as_slice());
    let free_field = text::trim_chars(second.as_slice());
    let total = text::parse_u64_chars(total_field.as_slice());
    let free = text::parse_u64_chars(free_field.as_slice());
    match (total, free) {
        (Some(t), Some(f)) => {
            if t == 0 || f > t {
                None
            } else {
                Some((t, f))
            }
        },
        _ => None,
    }
}

/// GPU memory in MB as `(total, available)`, from the standard output of
/// the `nvidia-smi` query when it ran successfully (`None` when it could not
/// be run or failed).
pub fn get_gpu_memory_mb(nvidia_smi_output: Option<&str>) -> (r: Option<(u64, u64)>)
    ensures
        nvidia_smi_output is None ==> r is None,
        nvidia_smi_output matches Some(out) ==> r == vram_report(out@),
{
    match nvidia_smi_output {
        Some(out) => parse_nvidia_vram(out),
        None => None,
    }
}

/// Whether the CPU architecture (as `std::env::consts::ARCH` names it) is
/// Apple Silicon.
pub fn is_apple_silicon(arch: &str) -> (r: bool)
    ensures
        r == (arch@ == "aarch64"@),
{
    let a = text::chars_of(arch);
    text::chars_eq_str(a.as_slice(), "aarch64")
}

/// A reported memory pair is never empty and never claims more free than
/// total memory.
pub proof fn lemma_vram_report_sane(output: Seq<char>)
    ensures
        vram_report(output) matches Some((total, free)) ==> total > 0 && free <= total,
{
}

} // verus!
