//! How a ComfyUI process is launched: its command line, the extra model
//! paths file it is given, GPU detection from `nvidia-smi` output, and the
//! messages reported when it fails to come up. Spawning and polling the
//! process is left to the caller.
use vstd::prelude::*;
use crate::text::{
    lines, lines_of, trim, trim_chars, chars_of, parse_u32, parse_u32_chars, find_chars, find_from,
    find, contains, str_contains, push_str, push_char, decimal, u64_to_string, replaced, replace_all,
    split_char, split_chars, char_pos, lemma_char_pos, lemma_find_from, occurs_at, occurs_at_exec,
};
use crate::strmap::str_eq;
use crate::nodes::{join, join_strings};
use crate::error::AppError;
use crate::auth::lower;

verus! {

// ---------------------------------------------------------------------------
// GPU detection
// ---------------------------------------------------------------------------

/// A line of `nvidia-smi --query-gpu=compute_cap` output names a Blackwell
/// GPU: trimmed, the text before its first `.` parses as a major version of
/// at least 12.
pub open spec fn blackwell_line(line: Seq<char>) -> bool {
    let t = trim(line);
    match char_pos(t, '.') {
        Some(i) => match parse_u32(t.take(i)) {
            Some(m) => m >= 12,
            None => false,
        },
        None => false,
    }
}

/// Some line of the output names a Blackwell GPU.
pub open spec fn blackwell_in(out: Seq<char>) -> bool {
    exists|i: int| 0 <= i < lines(out).len() && blackwell_line(#[trigger] lines(out)[i])
}

/// Whether one line of compute-capability output names a Blackwell GPU.
fn blackwell_line_exec(line: &str) -> (r: bool)
    ensures
        r == blackwell_line(line@),
{
    let cs = chars_of(line);
    let t = trim_chars(&cs, 0, cs.len());
    assert(cs@.subrange(0, cs@.len() as int) =~= cs@);
    let tv = chars_of(t.as_str());
    let dot: Vec<char> = vec!['.'];
    assert(dot@ =~= seq!['.']);
    match find_chars(&tv, &dot, 0) {
        Some(k) => {
            proof {
                lemma_char_pos(tv@, '.');
                assert(tv@.subrange(0, k as int) =~= tv@.take(k as int));
            }
            match parse_u32_chars(&tv, 0, k) {
                Some(m) => m >= 12,
                None => false,
            }
        },
        None => false,
    }
}

/// Whether `nvidia-smi --query-gpu=compute_cap --format=csv,noheader,nounits`
/// output shows a GPU of compute capability 12 or above (Blackwell).
pub fn has_blackwell_gpu(stdout: &str) -> (r: bool)
    ensures
        r == blackwell_in(stdout@),
{
    let ls = lines_of(stdout);
    let ghost lv = ls@.map_values(|x: String| x@);
    let mut i: usize = 0;
    while i < ls.len()
        invariant
            i <= ls@.len(),
            lv == ls@.map_values(|x: String| x@),
            lv == lines(stdout@),
            forall|j: int| 0 <= j < i ==> !blackwell_line(#[trigger] lv[j]),
        decreases ls@.len() - i,
    {
        if blackwell_line_exec(ls[i].as_str()) {
            assert(blackwell_line(lv[i as int]));
            return true;
        }
        i += 1;
    }
    false
}

// ---------------------------------------------------------------------------
// Command line
// ---------------------------------------------------------------------------

/// The ComfyUI flag for a VRAM mode: `high`, `low` and `none` have one;
/// `normal`, `auto` and anything else use ComfyUI's default.
pub open spec fn vram_flag_of(mode: Seq<char>) -> Option<Seq<char>> {
    if mode == "high"@ {
        Some("--highvram"@)
    } else if mode == "low"@ {
        Some("--lowvram"@)
    } else if mode == "none"@ {
        Some("--novram"@)
    } else {
        None
    }
}

/// The ComfyUI flag for a VRAM mode, if it has one.
pub fn vram_flag(mode: &str) -> (r: Option<&'static str>)
    ensures
        match r {
            Some(f) => vram_flag_of(mode@) == Some(f@),
            None => vram_flag_of(mode@) is None,
        },
{
    if str_eq(mode, "high") {
        Some("--highvram")
    } else if str_eq(mode, "low") {
        Some("--lowvram")
    } else if str_eq(mode, "none") {
        Some("--novram")
    } else {
        None
    }
}

/// An argument that sets the VAE precision.
pub open spec fn is_vae_flag(a: Seq<char>) -> bool {
    a == "--bf16-vae"@ || a == "--fp16-vae"@ || a == "--fp32-vae"@ || a == "--cpu-vae"@
}

/// The user's extra arguments already set the VAE precision.
pub open spec fn has_vae_flag_in(args: Seq<String>) -> bool {
    exists|i: int| 0 <= i < args.len() && is_vae_flag(#[trigger] args[i]@)
}

/// Whether one of the extra arguments sets the VAE precision.
pub fn has_vae_flag(extra_args: &Vec<String>) -> (r: bool)
    ensures
        r == has_vae_flag_in(extra_args@),
{
    let mut i: usize = 0;
    while i < extra_args.len()
        invariant
            i <= extra_args@.len(),
            forall|j: int| 0 <= j < i ==> !is_vae_flag(#[trigger] extra_args@[j]@),
        decreases extra_args@.len() - i,
    {
        let a = extra_args[i].as_str();
        if str_eq(a, "--bf16-vae") || str_eq(a, "--fp16-vae") || str_eq(a, "--fp32-vae") || str_eq(
            a,
            "--cpu-vae",
        ) {
            assert(is_vae_flag(extra_args@[i as int]@));
            return true;
        }
        i += 1;
    }
    false
}

/// The Python interpreter of a virtual environment.
pub open spec fn python_path_of(venv_path: Seq<char>, windows: bool) -> Seq<char> {
    venv_path + if windows { "/Scripts/python.exe"@ } else { "/bin/python"@ }
}

/// The Python interpreter of the virtual environment at `venv_path`.
pub fn python_path(venv_path: &str, windows: bool) -> (r: String)
    ensures
        r@ == python_path_of(venv_path@, windows),
{
    let mut s = String::from_str(venv_path);
    if windows {
        push_str(&mut s, "/Scripts/python.exe");
    } else {
        push_str(&mut s, "/bin/python");
    }
    s
}

/// ComfyUI's entry script in its installation directory.
pub fn main_script_path(comfyui_path: &str) -> (r: String)
    ensures
        r@ == comfyui_path@ + "/main.py"@,
{
    let mut s = String::from_str(comfyui_path);
    push_str(&mut s, "/main.py");
    s
}

/// The arguments ComfyUI is started with: the entry script, listening on
/// 127.0.0.1 at `port`, latent previews on, the VRAM flag, `--bf16-vae` on a
/// Blackwell GPU unless the extra arguments set the VAE precision, the extra
/// model paths file, then the user's extra arguments.
pub open spec fn launch_args_of(
    main_path: Seq<char>,
    port: u16,
    vram_mode: Seq<char>,
    blackwell: bool,
    model_paths_file: Option<Seq<char>>,
    extra_args: Seq<String>,
) -> Seq<Seq<char>> {
    seq![main_path, "--listen"@, "127.0.0.1"@, "--port"@, decimal(port as nat), "--preview-method"@, "auto"@]
        + match vram_flag_of(vram_mode) { Some(f) => seq![f], None => Seq::empty() }
        + if !has_vae_flag_in(extra_args) && blackwell { seq!["--bf16-vae"@] } else { Seq::empty() }
        + match model_paths_file { Some(p) => seq!["--extra-model-paths-config"@, p], None => Seq::empty() }
        + extra_args.map_values(|a: String| a@)
}

/// The argument list to start ComfyUI with (see [`launch_args_of`]).
/// `blackwell` is only consulted when the extra arguments leave the VAE
/// precision open.
pub fn launch_args(
    main_path: &str,
    port: u16,
    vram_mode: &str,
    blackwell: bool,
    model_paths_file: Option<&str>,
    extra_args: &Vec<String>,
) -> (r: Vec<String>)
    ensures
        r@.map_values(|a: String| a@) == launch_args_of(
            main_path@,
            port,
            vram_mode@,
            blackwell,
            match model_paths_file { Some(p) => Some(p@), None => None },
            extra_args@,
        ),
{
    let mut r: Vec<String> = Vec::new();
    r.push(String::from_str(main_path));
    r.push(String::from_str("--listen"));
    r.push(String::from_str("127.0.0.1"));
    r.push(String::from_str("--port"));
    r.push(u64_to_string(port as u64));
    r.push(String::from_str("--preview-method"));
    r.push(String::from_str("auto"));
    let ghost base = r@.map_values(|a: String| a@);
    assert(base =~= seq![main_path@, "--listen"@, "127.0.0.1"@, "--port"@, decimal(port as nat),
        "--preview-method"@, "auto"@]);
    match vram_flag(vram_mode) {
        Some(f) => r.push(String::from_str(f)),
        None => {},
    }
    let ghost with_vram = r@.map_values(|a: String| a@);
    assert(with_vram =~= base + match vram_flag_of(vram_mode@) { Some(f) => seq![f], None => Seq::<Seq<char>>::empty() });
    if !has_vae_flag(extra_args) && blackwell {
        r.push(String::from_str("--bf16-vae"));
    }
    let ghost with_vae = r@.map_values(|a: String| a@);
    assert(with_vae =~= with_vram + if !has_vae_flag_in(extra_args@) && blackwell { seq!["--bf16-vae"@] } else {
        Seq::<Seq<char>>::empty() });
    match model_paths_file {
        Some(p) => {
            r.push(String::from_str("--extra-model-paths-config"));
            r.push(String::from_str(p));
        },
        None => {},
    }
    let ghost with_paths = r@.map_values(|a: String| a@);
    assert(with_paths =~= with_vae + match model_paths_file { Some(p) => seq!["--extra-model-paths-config"@, p@],
        None => Seq::<Seq<char>>::empty() });
    let mut i: usize = 0;
    while i < extra_args.len()
        invariant
            i <= extra_args@.len(),
            r@.map_values(|a: String| a@) == with_paths + extra_args@.take(i as int).map_values(|a: String| a@),
        decreases extra_args@.len() - i,
    {
        let ghost before = r@;
        let c = extra_args[i].clone();
        r.push(c);
        assert(r@.map_values(|a: String| a@) =~= before.map_values(|a: String| a@).push(extra_args@[i as int]@));
        assert(extra_args@.take(i + 1).map_values(|a: String| a@) =~= extra_args@.take(i as int).map_values(
            |a: String| a@).push(extra_args@[i as int]@));
        assert(r@.map_values(|a: String| a@) =~= with_paths + extra_args@.take(i + 1).map_values(|a: String| a@));
        i += 1;
    }
    assert(extra_args@.take(i as int) =~= extra_args@);
    r
}

/// The VRAM mode a worker runs with: its own, else the global one.
pub fn worker_vram_mode<'a>(worker_mode: &'a Option<String>, global_mode: &'a str) -> (r: &'a str)
    ensures
        r@ == (match worker_mode { Some(m) => m@, None => global_mode@ }),
{
    match worker_mode {
        Some(m) => m.as_str(),
        None => global_mode,
    }
}


// ---------------------------------------------------------------------------
// Extra model directories
// ---------------------------------------------------------------------------

/// The directories listed in the extra model paths setting: one per line,
/// trimmed, blank lines skipped.
pub open spec fn model_dirs_of(setting: Seq<char>) -> Seq<Seq<char>> {
    lines(setting).map_values(|l: Seq<char>| trim(l)).filter(|l: Seq<char>| l.len() > 0)
}

/// The directories listed in the extra model paths setting.
pub fn extra_model_dirs(setting: &str) -> (r: Vec<String>)
    ensures
        r@.map_values(|d: String| d@) == model_dirs_of(setting@),
{
    let ls = lines_of(setting);
    let ghost tv = ls@.map_values(|x: String| x@).map_values(|l: Seq<char>| trim(l));
    let ghost keep = |l: Seq<char>| l.len() > 0;
    let mut out: Vec<String> = Vec::new();
    let mut i: usize = 0;
    while i < ls.len()
        invariant
            i <= ls@.len(),
            tv == ls@.map_values(|x: String| x@).map_values(|l: Seq<char>| trim(l)),
            keep == (|l: Seq<char>| l.len() > 0),
            out@.map_values(|d: String| d@) == tv.take(i as int).filter(keep),
        decreases ls@.len() - i,
    {
        let cs = chars_of(ls[i].as_str());
        let t = trim_chars(&cs, 0, cs.len());
        proof {
            assert(cs@.subrange(0, cs@.len() as int) =~= cs@);
            assert(t@ == tv[i as int]);
            assert(tv.take(i + 1) =~= tv.take(i as int).push(tv[i as int]));
            tv.take(i as int).lemma_filter_push(tv[i as int], keep);
        }
        if t.unicode_len() > 0 {
            let ghost before = out@;
            out.push(t);
            assert(out@.map_values(|d: String| d@) =~= before.map_values(|d: String| d@).push(tv[i as int]));
        }
        i += 1;
    }
    assert(tv.take(i as int) =~= tv);
    out
}

/// The subdirectory names that mark a directory as laid out by model category.
pub open spec fn known_model_subdirs() -> Seq<Seq<char>> {
    seq!["checkpoints"@, "Stable-diffusion"@, "Stable-Diffusion"@, "StableDiffusion"@, "loras"@, "lora"@,
        "Lora"@, "LoRA"@, "LoRAs"@, "LORA"@, "Loras"@, "LyCORIS"@, "lycoris"@, "vae"@, "VAE"@,
        "upscale_models"@, "ESRGAN"@, "embeddings"@, "controlnet"@, "ControlNet"@, "clip"@, "unet"@,
        "diffusion_models"@, "text_encoders"@]
}

/// Whether a directory whose subdirectories have these names has at least one
/// known model-category subdirectory; if not, it is a flat directory of models.
pub fn is_structured_model_dir(subdirs: &Vec<String>) -> (r: bool)
    ensures
        r == exists|i: int, j: int|
            0 <= i < subdirs@.len() && 0 <= j < known_model_subdirs().len() && #[trigger] subdirs@[i]@
                == #[trigger] known_model_subdirs()[j],
{
    let known: Vec<&str> = vec!["checkpoints", "Stable-diffusion", "Stable-Diffusion", "StableDiffusion",
        "loras", "lora", "Lora", "LoRA", "LoRAs", "LORA", "Loras", "LyCORIS", "lycoris", "vae", "VAE",
        "upscale_models", "ESRGAN", "embeddings", "controlnet", "ControlNet", "clip", "unet",
        "diffusion_models", "text_encoders"];
    assert(known@.map_values(|k: &str| k@) =~= known_model_subdirs());
    let mut i: usize = 0;
    while i < subdirs.len()
        invariant
            i <= subdirs@.len(),
            known@.map_values(|k: &str| k@) == known_model_subdirs(),
            forall|a: int, b: int| 0 <= a < i && 0 <= b < known_model_subdirs().len() ==>
                #[trigger] subdirs@[a]@ != #[trigger] known_model_subdirs()[b],
        decreases subdirs@.len() - i,
    {
        let mut j: usize = 0;
        while j < known.len()
            invariant
                i < subdirs@.len(),
                j <= known@.len(),
                known@.map_values(|k: &str| k@) == known_model_subdirs(),
                forall|a: int, b: int| 0 <= a < i && 0 <= b < known_model_subdirs().len() ==>
                    #[trigger] subdirs@[a]@ != #[trigger] known_model_subdirs()[b],
                forall|b: int| 0 <= b < j ==> subdirs@[i as int]@ != #[trigger] known_model_subdirs()[b],
            decreases known@.len() - j,
        {
            assert(known@[j as int]@ == known_model_subdirs()[j as int]);
            if str_eq(subdirs[i].as_str(), known[j]) {
                assert(subdirs@[i as int]@ == known_model_subdirs()[j as int]);
                return true;
            }
            j += 1;
        }
        i += 1;
    }
    false
}

/// `str::to_lowercase`: the Unicode lowercase mapping of the text (by
/// character, except that a capital sigma ending a word becomes a final
/// sigma).
pub uninterp spec fn unicode_lowercase(s: Seq<char>) -> Seq<char>;

/// std `str::to_lowercase`; the result is the Unicode lowercase mapping of
/// the text, a function of the text alone. On ASCII text that mapping is
/// ASCII lowercasing (`A`-`Z` to `a`-`z`, all else kept).
#[verifier::external_body]
pub(crate) fn to_lowercase(s: &str) -> (r: String)
    ensures
        r@ == unicode_lowercase(s@),
        (forall|i: int| 0 <= i < s@.len() ==> (#[trigger] s@[i] as u32) < 128) ==> r@ == lower(s@),
{
    s.to_lowercase()
}

/// The model category of a flat directory, from its (lowercased) name;
/// `loras` where nothing matches.
pub open spec fn flat_category(name: Seq<char>) -> Seq<char> {
    if contains(name, "lora"@) || contains(name, "lycoris"@) {
        "loras"@
    } else if contains(name, "checkpoint"@) || contains(name, "ckpt"@) || contains(name, "stable-diffusion"@)
        || contains(name, "stablediffusion"@) {
        "checkpoints"@
    } else if contains(name, "vae"@) {
        "vae"@
    } else if contains(name, "upscale"@) || contains(name, "esrgan"@) {
        "upscale_models"@
    } else if contains(name, "controlnet"@) || contains(name, "control_net"@) {
        "controlnet"@
    } else if contains(name, "embed"@) || contains(name, "textual"@) {
        "embeddings"@
    } else if contains(name, "clip"@) {
        "clip"@
    } else if contains(name, "unet"@) || contains(name, "diffusion"@) {
        "diffusion_models"@
    } else {
        "loras"@
    }
}

/// The ComfyUI model category for a flat directory (no known subdirectories)
/// with this final path component.
pub fn classify_flat_model_dir(dir_name: &str) -> (r: &'static str)
    ensures
        r@ == flat_category(unicode_lowercase(dir_name@)),
{
    let lower = to_lowercase(dir_name);
    let n = lower.as_str();
    if str_contains(n, "lora") || str_contains(n, "lycoris") {
        "loras"
    } else if str_contains(n, "checkpoint") || str_contains(n, "ckpt") || str_contains(n, "stable-diffusion")
        || str_contains(n, "stablediffusion") {
        "checkpoints"
    } else if str_contains(n, "vae") {
        "vae"
    } else if str_contains(n, "upscale") || str_contains(n, "esrgan") {
        "upscale_models"
    } else if str_contains(n, "controlnet") || str_contains(n, "control_net") {
        "controlnet"
    } else if str_contains(n, "embed") || str_contains(n, "textual") {
        "embeddings"
    } else if str_contains(n, "clip") {
        "clip"
    } else if str_contains(n, "unet") || str_contains(n, "diffusion") {
        "diffusion_models"
    } else {
        "loras"
    }
}

/// A directory as double-quoted YAML: backslashes and quotes escaped.
pub open spec fn yaml_quoted(dir: Seq<char>) -> Seq<char> {
    "\""@ + replaced(replaced(dir, "\\"@, "\\\\"@), "\""@, "\\\""@) + "\""@
}

/// A directory quoted for YAML.
pub fn yaml_quote(dir: &str) -> (r: String)
    ensures
        r@ == yaml_quoted(dir@),
{
    proof {
        reveal_strlit("\\");
        reveal_strlit("\"");
    }
    let a = replace_all(dir, "\\", "\\\\");
    let b = replace_all(a.as_str(), "\"", "\\\"");
    let mut s = String::from_str("\"");
    push_str(&mut s, b.as_str());
    push_str(&mut s, "\"");
    s
}

/// The category entries of a structured directory: named subdirectories for
/// every category, in the layouts of common UIs.
pub open spec fn structured_entries() -> Seq<char> {
    "  checkpoints: |\n    checkpoints\n    Stable-diffusion\n    Stable-Diffusion\n    StableDiffusion\n    models/Stable-diffusion\n    Models/Stable-Diffusion\n    Models/StableDiffusion\n    dlbackend/comfyui/models/checkpoints\n  vae: |\n    vae\n    VAE\n    models/VAE\n    Models/VAE\n    dlbackend/comfyui/models/vae\n  loras: |\n    loras\n    lora\n    Lora\n    LoRA\n    LoRAs\n    LORA\n    Loras\n    LyCORIS\n    lycoris\n    models/Lora\n    models/loras\n    models/LyCORIS\n    Models/Lora\n    Models/loras\n    Models/LyCORIS\n    dlbackend/comfyui/models/loras\n  upscale_models: |\n    upscale_models\n    ESRGAN\n    models/ESRGAN\n    models/RealESRGAN\n    Models/ESRGAN\n    Models/RealESRGAN\n    dlbackend/comfyui/models/upscale_models\n  embeddings: |\n    embeddings\n    models/TextualInversion\n    Models/TextualInversion\n    dlbackend/comfyui/models/embeddings\n  controlnet: |\n    controlnet\n    ControlNet\n    models/ControlNet\n    Models/ControlNet\n    dlbackend/comfyui/models/controlnet\n  clip: |\n    clip\n    models/clip\n    Models/clip\n    dlbackend/comfyui/models/clip\n  unet: |\n    unet\n    models/unet\n    Models/unet\n    dlbackend/comfyui/models/unet\n  diffusion_models: |\n    diffusion_models\n    models/diffusion_models\n    Models/diffusion_models\n    dlbackend/comfyui/models/diffusion_models\n  text_encoders: |\n    text_encoders\n    models/text_encoders\n    Models/text_encoders\n    dlbackend/comfyui/models/text_encoders\n"@
}

/// One extra model directory as the caller found it.
pub struct ModelDir {
    /// The directory as listed in the setting.
    pub path: String,
    /// Its final path component.
    pub name: String,
    /// Whether it has a known model-category subdirectory.
    pub structured: bool,
}

/// The YAML entry for the `idx`-th directory: its base path, then every
/// category's named subdirectories if it is structured, else `.` for the one
/// category its name suggests.
pub open spec fn yaml_entry(idx: nat, d: ModelDir) -> Seq<char> {
    "mooshieui_"@ + decimal(idx) + ":\n  base_path: "@ + yaml_quoted(d.path@) + "\n"@ + if d.structured {
        structured_entries()
    } else {
        "  "@ + flat_category(unicode_lowercase(d.name@)) + ": \".\"\n"@
    }
}

/// The entries for the first `k` directories, numbered from 1.
pub open spec fn yaml_entries(dirs: Seq<ModelDir>, k: int) -> Seq<char>
    decreases k,
{
    if k <= 0 || k > dirs.len() {
        Seq::empty()
    } else {
        yaml_entries(dirs, k - 1) + yaml_entry(k as nat, dirs[k - 1])
    }
}

/// The contents of ComfyUI's extra model paths file for these directories.
pub fn extra_model_paths_yaml(dirs: &Vec<ModelDir>) -> (r: String)
    ensures
        r@ == yaml_entries(dirs@, dirs@.len() as int),
{
    let mut out = String::new();
    let mut i: usize = 0;
    while i < dirs.len()
        invariant
            i <= dirs@.len(),
            out@ == yaml_entries(dirs@, i as int),
        decreases dirs@.len() - i,
    {
        let ghost before = out@;
        let d = &dirs[i];
        push_str(&mut out, "mooshieui_");
        let idx = u64_to_string(i as u64 + 1);
        push_str(&mut out, idx.as_str());
        push_str(&mut out, ":\n  base_path: ");
        let q = yaml_quote(d.path.as_str());
        push_str(&mut out, q.as_str());
        push_str(&mut out, "\n");
        if d.structured {
            push_str(&mut out, "  checkpoints: |\n    checkpoints\n    Stable-diffusion\n    Stable-Diffusion\n    StableDiffusion\n    models/Stable-diffusion\n    Models/Stable-Diffusion\n    Models/StableDiffusion\n    dlbackend/comfyui/models/checkpoints\n  vae: |\n    vae\n    VAE\n    models/VAE\n    Models/VAE\n    dlbackend/comfyui/models/vae\n  loras: |\n    loras\n    lora\n    Lora\n    LoRA\n    LoRAs\n    LORA\n    Loras\n    LyCORIS\n    lycoris\n    models/Lora\n    models/loras\n    models/LyCORIS\n    Models/Lora\n    Models/loras\n    Models/LyCORIS\n    dlbackend/comfyui/models/loras\n  upscale_models: |\n    upscale_models\n    ESRGAN\n    models/ESRGAN\n    models/RealESRGAN\n    Models/ESRGAN\n    Models/RealESRGAN\n    dlbackend/comfyui/models/upscale_models\n  embeddings: |\n    embeddings\n    models/TextualInversion\n    Models/TextualInversion\n    dlbackend/comfyui/models/embeddings\n  controlnet: |\n    controlnet\n    ControlNet\n    models/ControlNet\n    Models/ControlNet\n    dlbackend/comfyui/models/controlnet\n  clip: |\n    clip\n    models/clip\n    Models/clip\n    dlbackend/comfyui/models/clip\n  unet: |\n    unet\n    models/unet\n    Models/unet\n    dlbackend/comfyui/models/unet\n  diffusion_models: |\n    diffusion_models\n    models/diffusion_models\n    Models/diffusion_models\n    dlbackend/comfyui/models/diffusion_models\n  text_encoders: |\n    text_encoders\n    models/text_encoders\n    Models/text_encoders\n    dlbackend/comfyui/models/text_encoders\n");
        } else {
            push_str(&mut out, "  ");
            let cat = classify_flat_model_dir(d.name.as_str());
            push_str(&mut out, cat);
            push_str(&mut out, ": \".\"\n");
        }
        proof {
            assert(out@ =~= before + yaml_entry((i + 1) as nat, dirs@[i as int]));
            assert(yaml_entries(dirs@, i + 1) == yaml_entries(dirs@, i as int) + yaml_entry((i + 1) as nat, dirs@[i as int]));
        }
        i += 1;
    }
    out
}


// ---------------------------------------------------------------------------
// Virtual environment
// ---------------------------------------------------------------------------

/// The `home` value of one `pyvenv.cfg` line (`home=` or `home =`, then the
/// value trimmed), where it is not empty.
pub open spec fn home_of_line(line: Seq<char>) -> Option<Seq<char>> {
    if occurs_at(line, "home"@, 0) {
        let rest = line.skip(4);
        let v = if occurs_at(rest, "="@, 0) {
            Some(trim(rest.skip(1)))
        } else if occurs_at(rest, " ="@, 0) {
            Some(trim(rest.skip(2)))
        } else {
            None
        };
        match v {
            Some(h) => if h.len() > 0 { Some(h) } else { None },
            None => None,
        }
    } else {
        None
    }
}

/// The Python homes a `pyvenv.cfg` names, in order.
pub open spec fn pyvenv_homes_of(content: Seq<char>) -> Seq<Seq<char>> {
    lines(content).map_values(|l: Seq<char>| home_of_line(l)).filter(|h: Option<Seq<char>>| h is Some).map_values(
        |h: Option<Seq<char>>| h->0)
}

fn home_of_line_exec(line: &str) -> (r: Option<String>)
    ensures
        match r {
            Some(h) => home_of_line(line@) == Some(h@),
            None => home_of_line(line@) is None,
        },
{
    proof {
        reveal_strlit("home");
        reveal_strlit("=");
        reveal_strlit(" =");
    }
    let cs = chars_of(line);
    let home: Vec<char> = vec!['h', 'o', 'm', 'e'];
    let eq: Vec<char> = vec!['='];
    let sp_eq: Vec<char> = vec![' ', '='];
    assert(home@ =~= "home"@);
    assert(eq@ =~= "="@);
    assert(sp_eq@ =~= " ="@);
    if cs.len() < 4 || !occurs_at_exec(&cs, &home, 0) {
        return None;
    }
    let n = cs.len();
    let ghost rest = cs@.skip(4);
    let start: usize;
    if n >= 5 && occurs_at_exec(&cs, &eq, 4) {
        assert(occurs_at(rest, "="@, 0)) by {
            assert(rest.subrange(0, 1) =~= cs@.subrange(4, 5));
        }
        start = 5;
    } else if n >= 6 && occurs_at_exec(&cs, &sp_eq, 4) {
        assert(occurs_at(rest, " ="@, 0)) by {
            assert(rest.subrange(0, 2) =~= cs@.subrange(4, 6));
        }
        assert(!occurs_at(rest, "="@, 0)) by {
            assert(rest.subrange(0, 1)[0] == ' ');
        }
        start = 6;
    } else {
        assert(!occurs_at(rest, "="@, 0)) by {
            if occurs_at(rest, "="@, 0) {
                assert(cs@.subrange(4, 5) =~= rest.subrange(0, 1));
            }
        }
        assert(!occurs_at(rest, " ="@, 0)) by {
            if occurs_at(rest, " ="@, 0) {
                assert(cs@.subrange(4, 6) =~= rest.subrange(0, 2));
            }
        }
        return None;
    }
    let t = trim_chars(&cs, start, n);
    assert(cs@.subrange(start as int, n as int) =~= rest.skip(start - 4));
    if t.unicode_len() == 0 {
        None
    } else {
        Some(t)
    }
}

/// The non-empty Python homes named by a `pyvenv.cfg`; the environment needs
/// repair when one of them no longer exists.
pub fn pyvenv_homes(content: &str) -> (r: Vec<String>)
    ensures
        r@.map_values(|h: String| h@) == pyvenv_homes_of(content@),
{
    let ls = lines_of(content);
    let ghost lv = ls@.map_values(|x: String| x@);
    let ghost opts = lv.map_values(|l: Seq<char>| home_of_line(l));
    let ghost keep = |h: Option<Seq<char>>| h is Some;
    let mut out: Vec<String> = Vec::new();
    let mut i: usize = 0;
    while i < ls.len()
        invariant
            i <= ls@.len(),
            lv == ls@.map_values(|x: String| x@),
            opts == lv.map_values(|l: Seq<char>| home_of_line(l)),
            keep == (|h: Option<Seq<char>>| h is Some),
            out@.map_values(|h: String| h@) == opts.take(i as int).filter(keep).map_values(|h: Option<Seq<char>>| h->0),
        decreases ls@.len() - i,
    {
        let h = home_of_line_exec(ls[i].as_str());
        proof {
            assert(opts.take(i + 1) =~= opts.take(i as int).push(opts[i as int]));
            opts.take(i as int).lemma_filter_push(opts[i as int], keep);
        }
        match h {
            Some(v) => {
                let ghost before = out@;
                out.push(v);
                assert(out@.map_values(|h: String| h@) =~= before.map_values(|h: String| h@).push(opts[i as int]->0));
                assert(opts.take(i + 1).filter(keep).map_values(|h: Option<Seq<char>>| h->0) =~= opts.take(
                    i as int).filter(keep).map_values(|h: Option<Seq<char>>| h->0).push(opts[i as int]->0));
            },
            None => {},
        }
        i += 1;
    }
    assert(opts.take(i as int) =~= opts);
    out
}

// ---------------------------------------------------------------------------
// Readiness and failure reports
// ---------------------------------------------------------------------------

/// The last `n` lines of a log, joined by newlines; None when there are none.
pub open spec fn log_tail_of(content: Seq<char>, n: nat) -> Option<Seq<char>> {
    let ls = lines(content);
    let t = if ls.len() > n { ls.skip(ls.len() - n) } else { ls };
    if t.len() == 0 { None } else { Some(join(t, "\n"@)) }
}

/// The last `n` lines of a log.
pub fn log_tail(content: &str, n: usize) -> (r: Option<String>)
    ensures
        match r {
            Some(t) => log_tail_of(content@, n as nat) == Some(t@),
            None => log_tail_of(content@, n as nat) is None,
        },
{
    let ls = lines_of(content);
    let ghost lv = ls@.map_values(|x: String| x@);
    let start = if ls.len() > n { ls.len() - n } else { 0 };
    let mut tail: Vec<String> = Vec::new();
    let mut i = start;
    while i < ls.len()
        invariant
            start <= i <= ls@.len(),
            lv == ls@.map_values(|x: String| x@),
            tail@.map_values(|x: String| x@) == lv.subrange(start as int, i as int),
        decreases ls@.len() - i,
    {
        let ghost before = tail@;
        let c = ls[i].clone();
        tail.push(c);
        assert(tail@.map_values(|x: String| x@) =~= before.map_values(|x: String| x@).push(lv[i as int]));
        assert(lv.subrange(start as int, i + 1) =~= lv.subrange(start as int, i as int).push(lv[i as int]));
        i += 1;
    }
    proof {
        if ls@.len() > n {
            assert(lv.subrange(start as int, lv.len() as int) =~= lv.skip(lv.len() - n));
        } else {
            assert(lv.subrange(0, lv.len() as int) =~= lv);
        }
    }
    if tail.len() == 0 {
        None
    } else {
        Some(join_strings(&tail, "\n"))
    }
}

/// How many half-second polls fit in the readiness timeout.
pub fn ready_poll_count(timeout_secs: u64) -> (r: u64)
    requires
        timeout_secs <= u64::MAX / 2,
    ensures
        r == timeout_secs * 2,
{
    timeout_secs * 2
}

/// Whether poll `i` also checks that the process is still alive (every
/// fourth poll, that is every two seconds).
pub fn checks_process_at(i: u64) -> (r: bool)
    ensures
        r == (i % 4 == 3),
{
    i % 4 == 3
}

/// The explanation given when the log shows PyTorch without GPU support.
pub open spec fn cpu_torch_message() -> Seq<char> {
    "PyTorch was installed without GPU support. The CPU-only version of PyTorch was installed instead of the GPU-accelerated version. Go to Settings \u{2192} Advanced \u{2192} Reinstall PyTorch to fix this, or re-run setup and make sure the correct GPU type is selected. Note: AMD GPU acceleration (ROCm) is only available on Linux."@
}

/// The message when the ComfyUI process exited before it was ready, given
/// its exit status and the tail of its log.
pub open spec fn exit_message_of(status: Seq<char>, log: Option<Seq<char>>) -> Seq<char> {
    match log {
        Some(l) => if contains(l, "Torch not compiled with CUDA enabled"@) || contains(l, "CUDA not available"@) {
            cpu_torch_message()
        } else {
            "ComfyUI process exited with "@ + status + " \u{2014} last log output:\n"@ + l
        },
        None => "ComfyUI process exited with "@ + status,
    }
}

/// The error for a ComfyUI process that exited before it was ready.
pub fn process_exit_error(status: &str, log: Option<&str>) -> (r: AppError)
    ensures
        r matches AppError::ProcessSpawnFailed(m) && m@ == exit_message_of(
            status@,
            match log { Some(l) => Some(l@), None => None },
        ),
{
    match log {
        Some(l) => {
            if str_contains(l, "Torch not compiled with CUDA enabled") || str_contains(l, "CUDA not available") {
                AppError::ProcessSpawnFailed(String::from_str("PyTorch was installed without GPU support. The CPU-only version of PyTorch was installed instead of the GPU-accelerated version. Go to Settings \u{2192} Advanced \u{2192} Reinstall PyTorch to fix this, or re-run setup and make sure the correct GPU type is selected. Note: AMD GPU acceleration (ROCm) is only available on Linux."))
            } else {
                let mut m = String::from_str("ComfyUI process exited with ");
                push_str(&mut m, status);
                push_str(&mut m, " \u{2014} last log output:\n");
                push_str(&mut m, l);
                AppError::ProcessSpawnFailed(m)
            }
        },
        None => {
            let mut m = String::from_str("ComfyUI process exited with ");
            push_str(&mut m, status);
            AppError::ProcessSpawnFailed(m)
        },
    }
}

/// The error when ComfyUI did not answer within the timeout.
pub fn ready_timeout_error(timeout_secs: u64, log: Option<&str>) -> (r: AppError)
    ensures
        r matches AppError::ConnectionFailed(m) && m@ == "ComfyUI did not start within "@ + decimal(
            timeout_secs as nat,
        ) + match log {
            Some(l) => " seconds \u{2014} last log output:\n"@ + l@,
            None => " seconds"@,
        },
{
    let mut m = String::from_str("ComfyUI did not start within ");
    let n = u64_to_string(timeout_secs);
    push_str(&mut m, n.as_str());
    match log {
        Some(l) => {
            push_str(&mut m, " seconds \u{2014} last log output:\n");
            push_str(&mut m, l);
        },
        None => {
            push_str(&mut m, " seconds");
        },
    }
    AppError::ConnectionFailed(m)
}

/// `Worker <id> (GPU <gpu>): `.
pub open spec fn worker_prefix(id: u32, gpu: u32) -> Seq<char> {
    "Worker "@ + decimal(id as nat) + " (GPU "@ + decimal(gpu as nat) + "): "@
}

fn push_worker_prefix(m: &mut String, id: u32, gpu: u32)
    ensures
        final(m)@ == old(m)@ + worker_prefix(id, gpu),
{
    push_str(m, "Worker ");
    let a = u64_to_string(id as u64);
    push_str(m, a.as_str());
    push_str(m, " (GPU ");
    let b = u64_to_string(gpu as u64);
    push_str(m, b.as_str());
    push_str(m, "): ");
}

/// The error for a worker process that exited before it was ready.
pub fn worker_exit_error(id: u32, gpu: u32, status: &str, log: Option<&str>) -> (r: AppError)
    ensures
        r matches AppError::ProcessSpawnFailed(m) && m@ == worker_prefix(id, gpu) + "process exited with "@
            + status@ + match log {
            Some(l) => " \u{2014} "@ + l@,
            None => Seq::empty(),
        },
{
    let mut m = String::new();
    push_worker_prefix(&mut m, id, gpu);
    push_str(&mut m, "process exited with ");
    push_str(&mut m, status);
    match log {
        Some(l) => {
            push_str(&mut m, " \u{2014} ");
            push_str(&mut m, l);
        },
        None => {},
    }
    assert(m@ =~= worker_prefix(id, gpu) + "process exited with "@ + status@ + match log {
        Some(l) => " \u{2014} "@ + l@,
        None => Seq::<char>::empty(),
    });
    AppError::ProcessSpawnFailed(m)
}

/// The error when a worker did not answer within the timeout.
pub fn worker_timeout_error(id: u32, gpu: u32, timeout_secs: u64) -> (r: AppError)
    ensures
        r matches AppError::ConnectionFailed(m) && m@ == worker_prefix(id, gpu) + "did not start within "@
            + decimal(timeout_secs as nat) + " seconds"@,
{
    let mut m = String::new();
    push_worker_prefix(&mut m, id, gpu);
    push_str(&mut m, "did not start within ");
    let n = u64_to_string(timeout_secs);
    push_str(&mut m, n.as_str());
    push_str(&mut m, " seconds");
    AppError::ConnectionFailed(m)
}

/// Check the interpreter and entry script before spawning: an empty venv or
/// ComfyUI path, or a missing file, is refused with the message naming it
/// (a worker's message omits the configuration hint).
pub fn check_launch_paths(
    venv_path: &str,
    python_path: &str,
    python_exists: bool,
    comfyui_path: &str,
    main_path: &str,
    main_exists: bool,
    for_worker: bool,
) -> (r: Result<(), AppError>)
    ensures
        (venv_path@.len() == 0 || !python_exists) ==> (r matches Err(AppError::ProcessSpawnFailed(m)) && m@
            == "Python not found at '"@ + python_path@ + if for_worker {
            "'. Run setup first."@
        } else {
            "'. Run setup first or check your venv_path config."@
        }),
        !(venv_path@.len() == 0 || !python_exists) && (comfyui_path@.len() == 0 || !main_exists) ==> (r matches Err(
            AppError::ProcessSpawnFailed(m),
        ) && m@ == "ComfyUI main.py not found at '"@ + main_path@ + if for_worker {
            "'."@
        } else {
            "'. Run setup first or check your comfyui_path config."@
        }),
        r is Ok <==> (venv_path@.len() > 0 && python_exists && comfyui_path@.len() > 0 && main_exists),
{
    if venv_path.unicode_len() == 0 || !python_exists {
        let mut m = String::from_str("Python not found at '");
        push_str(&mut m, python_path);
        if for_worker {
            push_str(&mut m, "'. Run setup first.");
        } else {
            push_str(&mut m, "'. Run setup first or check your venv_path config.");
        }
        return Err(AppError::ProcessSpawnFailed(m));
    }
    if comfyui_path.unicode_len() == 0 || !main_exists {
        let mut m = String::from_str("ComfyUI main.py not found at '");
        push_str(&mut m, main_path);
        if for_worker {
            push_str(&mut m, "'.");
        } else {
            push_str(&mut m, "'. Run setup first or check your comfyui_path config.");
        }
        return Err(AppError::ProcessSpawnFailed(m));
    }
    Ok(())
}

/// The name of a worker's log file.
pub fn worker_log_name(id: u32) -> (r: String)
    ensures
        r@ == "comfyui-desktop-worker"@ + decimal(id as nat) + "-stderr.log"@,
{
    let mut s = String::from_str("comfyui-desktop-worker");
    let n = u64_to_string(id as u64);
    push_str(&mut s, n.as_str());
    push_str(&mut s, "-stderr.log");
    s
}

/// A `PATH` without the directories of a mounted AppImage.
pub open spec fn host_path_of(path: Seq<char>) -> Seq<char> {
    join(split_char(path, ':').filter(|p: Seq<char>| !contains(p, "/tmp/.mount_"@)), ":"@)
}

/// The `PATH` for a child process started from inside an AppImage: the
/// entries under `/tmp/.mount_` dropped.
pub fn host_path(path: &str) -> (r: String)
    ensures
        r@ == host_path_of(path@),
{
    let cs = chars_of(path);
    let parts = split_chars(&cs, ':');
    let ghost pv = parts@.map_values(|x: String| x@);
    let ghost keep = |p: Seq<char>| !contains(p, "/tmp/.mount_"@);
    let mut kept: Vec<String> = Vec::new();
    let mut i: usize = 0;
    while i < parts.len()
        invariant
            i <= parts@.len(),
            pv == parts@.map_values(|x: String| x@),
            pv == split_char(path@, ':'),
            keep == (|p: Seq<char>| !contains(p, "/tmp/.mount_"@)),
            kept@.map_values(|x: String| x@) == pv.take(i as int).filter(keep),
        decreases parts@.len() - i,
    {
        proof {
            assert(pv.take(i + 1) =~= pv.take(i as int).push(pv[i as int]));
            pv.take(i as int).lemma_filter_push(pv[i as int], keep);
        }
        if !str_contains(parts[i].as_str(), "/tmp/.mount_") {
            let ghost before = kept@;
            let c = parts[i].clone();
            kept.push(c);
            assert(kept@.map_values(|x: String| x@) =~= before.map_values(|x: String| x@).push(pv[i as int]));
        }
        i += 1;
    }
    assert(pv.take(i as int) =~= pv);
    join_strings(&kept, ":")
}

/// The process ids listed one per line by `lsof -ti`.
pub open spec fn lsof_pids_of(out: Seq<char>) -> Seq<u32> {
    lines(out).map_values(|l: Seq<char>| parse_u32(trim(l))).filter(|p: Option<u32>| p is Some).map_values(
        |p: Option<u32>| p->0)
}

/// The process ids in `lsof -ti` output (lines that do not parse are skipped).
pub fn lsof_pids(out: &str) -> (r: Vec<u32>)
    ensures
        r@ == lsof_pids_of(out@),
{
    let ls = lines_of(out);
    let ghost lv = ls@.map_values(|x: String| x@);
    let ghost opts = lv.map_values(|l: Seq<char>| parse_u32(trim(l)));
    let ghost keep = |p: Option<u32>| p is Some;
    let mut pids: Vec<u32> = Vec::new();
    let mut i: usize = 0;
    while i < ls.len()
        invariant
            i <= ls@.len(),
            lv == ls@.map_values(|x: String| x@),
            opts == lv.map_values(|l: Seq<char>| parse_u32(trim(l))),
            keep == (|p: Option<u32>| p is Some),
            pids@ == opts.take(i as int).filter(keep).map_values(|p: Option<u32>| p->0),
        decreases ls@.len() - i,
    {
        let cs = chars_of(ls[i].as_str());
        let t = chars_of(trim_chars(&cs, 0, cs.len()).as_str());
        proof {
            assert(cs@.subrange(0, cs@.len() as int) =~= cs@);
            assert(t@.subrange(0, t@.len() as int) =~= t@);
            assert(opts.take(i + 1) =~= opts.take(i as int).push(opts[i as int]));
            opts.take(i as int).lemma_filter_push(opts[i as int], keep);
        }
        match parse_u32_chars(&t, 0, t.len()) {
            Some(p) => {
                pids.push(p);
                assert(opts.take(i + 1).filter(keep).map_values(|p: Option<u32>| p->0) =~= opts.take(
                    i as int).filter(keep).map_values(|p: Option<u32>| p->0).push(p));
            },
            None => {},
        }
        i += 1;
    }
    assert(opts.take(i as int) =~= opts);
    pids
}

} // verus!
