//! Configuration items shared by the library: per-GPU worker settings and
//! how the ComfyUI server is reached.
use vstd::prelude::*;

verus! {

/// Per-GPU worker configuration for multi-GPU setups.
pub struct GpuWorkerConfig {
    /// CUDA device index (maps to CUDA_VISIBLE_DEVICES).
    pub gpu_index: u32,
    /// Port for this worker's ComfyUI instance; assigned from the base port when `None`.
    pub port: Option<u16>,
    /// Whether this worker is enabled.
    pub enabled: bool,
    /// Human-readable label (e.g. "RTX 4090").
    pub label: Option<String>,
    /// VRAM mode override ("high", "normal", "low", "none"); falls back to the global one.
    pub vram_mode: Option<String>,
}

/// The value of an absent `enabled` setting: true.
pub fn default_true() -> (r: bool)
    ensures
        r,
{
    true
}

/// How the ComfyUI server is run.
#[derive(Debug, Clone, Copy, PartialEq, Eq, Structural)]
pub enum ServerMode {
    /// The app launches and manages ComfyUI itself.
    AutoLaunch,
    /// An already running server is used.
    Remote,
}

impl ServerMode {
    /// The mode's name in the settings file (lower case).
    pub fn as_str(&self) -> (s: &'static str)
        ensures
            s@ == match self {
                ServerMode::AutoLaunch => "autolaunch"@,
                ServerMode::Remote => "remote"@,
            },
    {
        match self {
            ServerMode::AutoLaunch => "autolaunch",
            ServerMode::Remote => "remote",
        }
    }
}

} // verus!
