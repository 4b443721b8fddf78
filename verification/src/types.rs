//! Records exchanged with ComfyUI, CivitAI, GitHub and the user interface.
use vstd::prelude::*;

verus! {

/// System statistics reported by ComfyUI (`/system_stats`).
pub struct SystemStats {
    pub system: SystemInfo,
    pub devices: Vec<DeviceInfo>,
}

/// The host part of the system statistics.
pub struct SystemInfo {
    pub os: String,
    pub ram_total: u64,
    pub ram_free: u64,
    pub comfyui_version: Option<String>,
    pub python_version: Option<String>,
    pub pytorch_version: Option<String>,
}

/// One compute device in the system statistics.
pub struct DeviceInfo {
    pub name: String,
    pub device_type: String,
    pub vram_total: u64,
    pub vram_free: u64,
}

/// ComfyUI's answer to an image upload.
pub struct UploadResponse {
    pub name: String,
    pub subfolder: String,
    pub upload_type: String,
}

/// The samplers and schedulers a ComfyUI server offers.
pub struct SamplerInfo {
    pub samplers: Vec<String>,
    pub schedulers: Vec<String>,
}

/// Possible outcomes of starting the ComfyUI process.
#[derive(Debug, Clone, Copy, PartialEq, Eq, Structural)]
pub enum StartResult {
    /// Server was already running (external instance).
    AlreadyRunning,
    /// Process was spawned; the caller should poll for readiness.
    Spawned,
    /// Server mode is Remote: nothing to do.
    Skipped,
}

impl StartResult {
    /// The outcome's name in event payloads (snake case).
    pub fn as_str(&self) -> (s: &'static str)
        ensures
            s@ == match self {
                StartResult::AlreadyRunning => "already_running"@,
                StartResult::Spawned => "spawned"@,
                StartResult::Skipped => "skipped"@,
            },
    {
        match self {
            StartResult::AlreadyRunning => "already_running",
            StartResult::Spawned => "spawned",
            StartResult::Skipped => "skipped",
        }
    }
}

/// A model file's SHA-256 and its AutoV2 short hash.
pub struct ModelHashResult {
    pub sha256: String,
    pub autov2: String,
}

/// A gallery image: file name, size and modification time.
pub struct GalleryImageEntry {
    pub filename: String,
    pub size_bytes: u64,
    pub modified_ms: u64,
}

/// Search filters for CivitAI model search.
pub struct CivitaiSearchParams {
    pub query: Option<String>,
    pub model_type: Option<String>,
    pub base_model: Option<String>,
    pub file_format: Option<String>,
    pub status: Option<String>,
    pub sort: Option<String>,
    pub period: Option<String>,
    pub nsfw: Option<bool>,
    pub page: Option<u32>,
    pub cursor: Option<String>,
    pub limit: Option<u32>,
    pub api_key: Option<String>,
}

/// A directory a model of some category can be installed into.
pub struct ModelInstallDir {
    pub path: String,
    pub label: String,
}

/// Combined LoRA information from ModelSpec and CivitAI.
pub struct LoraCivitaiInfo {
    pub filename: String,
    pub hash: Option<String>,
    pub civitai_name: Option<String>,
    pub civitai_description: Option<String>,
    pub civitai_model_id: Option<u64>,
    pub civitai_version_id: Option<u64>,
    pub civitai_base_model: Option<String>,
    pub civitai_images: Vec<LoraCivitaiImage>,
    pub civitai_trigger_words: Vec<String>,
    pub civitai_download_count: Option<u64>,
    pub civitai_thumbs_up_count: Option<u64>,
    pub civitai_creator: Option<String>,
    pub modelspec_title: Option<String>,
    pub modelspec_author: Option<String>,
    pub modelspec_architecture: Option<String>,
    pub modelspec_trigger_phrase: Option<String>,
    pub modelspec_description: Option<String>,
    pub modelspec_tags: Option<String>,
}

/// A sample image of a CivitAI model.
pub struct LoraCivitaiImage {
    pub url: String,
    pub width: Option<u32>,
    pub height: Option<u32>,
    pub nsfw: Option<String>,
}

/// Combined checkpoint information from ModelSpec, a local thumbnail and CivitAI.
pub struct CheckpointCivitaiInfo {
    pub filename: String,
    pub hash: Option<String>,
    pub display_name: Option<String>,
    pub base_model: Option<String>,
    /// `data:<mime>;base64,...` for a local thumbnail, `https://...` from CivitAI, or none.
    pub thumbnail_url: Option<String>,
    pub civitai_model_id: Option<u64>,
    pub civitai_version_id: Option<u64>,
    pub civitai_description: Option<String>,
    pub civitai_images: Vec<LoraCivitaiImage>,
    pub civitai_download_count: Option<u64>,
    pub civitai_thumbs_up_count: Option<u64>,
    pub civitai_creator: Option<String>,
    pub modelspec_title: Option<String>,
    pub modelspec_author: Option<String>,
    pub modelspec_architecture: Option<String>,
    pub modelspec_description: Option<String>,
    pub modelspec_tags: Option<String>,
}

/// A published release: version tag, notes and publication time.
pub struct ReleaseNote {
    pub version: String,
    pub body: String,
    pub published_at: String,
}

/// Counts of a gallery import.
pub struct ImportResult {
    pub imported: u32,
    pub skipped: u32,
    pub failed: u32,
}

/// Response of a generation request: the prompt id and the seed used.
pub struct GenerateResponse {
    pub prompt_id: String,
    pub seed: i64,
}

/// Response of a ControlNet preprocessor preview request.
pub struct ControlNetPreprocessorPreviewResponse {
    pub prompt_id: String,
}

/// A tag the interrogator model can output: name and category.
pub struct TagDef {
    pub name: String,
    pub category: u8,
}

/// Download progress of a setup step.
pub struct DownloadProgress {
    pub filename: String,
    pub downloaded: u64,
    pub total: u64,
    pub done: bool,
}

/// A model directory of another tool found on this machine.
pub struct DetectedModelDir {
    pub path: String,
    pub tool: String,
    pub has_checkpoints: bool,
    pub has_loras: bool,
    pub has_vae: bool,
}

/// Outputs of the model loading stage of a workflow: (node id, output index)
/// of the model, CLIP and VAE, and the next free node id.
pub struct ModelLoadResult {
    pub model_source: (String, u32),
    pub clip_source: (String, u32),
    pub vae_source: (String, u32),
    pub next_id: u32,
}

/// Default output bit depth of a generation: `8bit`.
pub fn default_output_bit_depth() -> (r: String)
    ensures
        r@ == "8bit"@,
{
    String::from_str("8bit")
}

/// Default number of face-fix sampling steps.
pub fn default_facefix_steps() -> (r: u32)
    ensures
        r == 20,
{
    20
}

/// Default face-fix guide size in pixels.
pub fn default_facefix_guide_size() -> (r: u32)
    ensures
        r == 512,
{
    512
}

/// Default maximum number of faces the face fix handles.
pub fn default_facefix_max_faces() -> (r: u32)
    ensures
        r == 8,
{
    8
}

} // verus!
