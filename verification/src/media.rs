//! Small decisions of the desktop commands about images and model files:
//! short model hashes, image types from their first bytes, and where a model
//! file may lie.
use vstd::prelude::*;
use crate::text::{chars_of, string_of, trim, trim_chars, split_char, split_chars};
use crate::auth::{lower, ascii_lowercase};
use crate::strmap::str_eq;
use crate::text::push_str;
use crate::uri::{has_prefix, is_plain_filename, plain_filename};

verus! {

/// The AUTOV2 short hash: the first 10 characters of the full SHA-256 hex
/// digest.
pub fn autov2_hash(full_hash: &str) -> (r: String)
    requires
        full_hash@.len() >= 10,
        forall|i: int| 0 <= i < 10 ==> (#[trigger] full_hash@[i] as u32) < 128,
    ensures
        r@ == full_hash@.take(10),
{
    let cs = chars_of(full_hash);
    let r = string_of(&cs, 0, 10);
    assert(cs@.subrange(0, 10) =~= full_hash@.take(10));
    r
}

/// The bytes start with `prefix`.
pub open spec fn starts_with(b: Seq<u8>, prefix: Seq<u8>) -> bool {
    prefix.len() <= b.len() && b.take(prefix.len() as int) == prefix
}

fn bytes_start_with(b: &[u8], prefix: &[u8]) -> (r: bool)
    ensures
        r == starts_with(b@, prefix@),
{
    if prefix.len() > b.len() {
        return false;
    }
    let mut i: usize = 0;
    while i < prefix.len()
        invariant
            prefix@.len() <= b@.len(),
            i <= prefix@.len(),
            forall|k: int| 0 <= k < i ==> b@[k] == prefix@[k],
        decreases prefix@.len() - i,
    {
        if b[i] != prefix[i] {
            assert(b@.take(prefix@.len() as int)[i as int] != prefix@[i as int]);
            return false;
        }
        i += 1;
    }
    assert(b@.take(prefix@.len() as int) =~= prefix@);
    true
}

/// The MIME type of an image to hand to the clipboard: JPEG (JFIF or Exif
/// start) or WebP (RIFF start) by content, else by the extension hint, PNG by
/// default.
pub open spec fn inferred_mime(b: Seq<u8>, ext: Option<Seq<char>>) -> Seq<char> {
    if starts_with(b, seq![0xFFu8, 0xD8u8, 0xFFu8, 0xE0u8]) || starts_with(b, seq![0xFFu8, 0xD8u8, 0xFFu8, 0xE1u8]) {
        "image/jpeg"@
    } else if starts_with(b, seq![0x52u8, 0x49u8, 0x46u8, 0x46u8]) {
        "image/webp"@
    } else {
        match ext {
            Some(e) => if e == "jpg"@ || e == "jpeg"@ {
                "image/jpeg"@
            } else if e == "webp"@ {
                "image/webp"@
            } else {
                "image/png"@
            },
            None => "image/png"@,
        }
    }
}

/// The MIME type of an image from its bytes and file extension.
pub fn infer_image_mime(bytes: &[u8], ext_hint: Option<&str>) -> (r: &'static str)
    ensures
        r@ == inferred_mime(bytes@, match ext_hint { Some(e) => Some(e@), None => None }),
{
    let jfif: [u8; 4] = [0xFF, 0xD8, 0xFF, 0xE0];
    let exif: [u8; 4] = [0xFF, 0xD8, 0xFF, 0xE1];
    let riff: [u8; 4] = [0x52, 0x49, 0x46, 0x46];
    assert(jfif@ =~= seq![0xFFu8, 0xD8u8, 0xFFu8, 0xE0u8]);
    assert(exif@ =~= seq![0xFFu8, 0xD8u8, 0xFFu8, 0xE1u8]);
    assert(riff@ =~= seq![0x52u8, 0x49u8, 0x46u8, 0x46u8]);
    if bytes_start_with(bytes, jfif.as_slice()) || bytes_start_with(bytes, exif.as_slice()) {
        return "image/jpeg";
    }
    if bytes_start_with(bytes, riff.as_slice()) {
        return "image/webp";
    }
    match ext_hint {
        Some(e) => {
            if str_eq(e, "jpg") || str_eq(e, "jpeg") {
                "image/jpeg"
            } else if str_eq(e, "webp") {
                "image/webp"
            } else {
                "image/png"
            }
        },
        None => "image/png",
    }
}

/// The MIME type of fetched image bytes: PNG, JPEG, GIF or WebP by their
/// signature, JPEG when none matches.
pub open spec fn detected_mime(b: Seq<u8>) -> Seq<char> {
    if starts_with(b, seq![0x89u8, 0x50u8, 0x4Eu8, 0x47u8]) {
        "image/png"@
    } else if starts_with(b, seq![0xFFu8, 0xD8u8]) {
        "image/jpeg"@
    } else if starts_with(b, seq![0x47u8, 0x49u8, 0x46u8]) {
        "image/gif"@
    } else if b.len() >= 12 && b.subrange(0, 4) == seq![0x52u8, 0x49u8, 0x46u8, 0x46u8] && b.subrange(8, 12)
        == seq![0x57u8, 0x45u8, 0x42u8, 0x50u8] {
        "image/webp"@
    } else {
        "image/jpeg"@
    }
}

/// The MIME type of fetched image bytes.
pub fn detect_image_mime(bytes: &[u8]) -> (r: &'static str)
    ensures
        r@ == detected_mime(bytes@),
{
    let png: [u8; 4] = [0x89, 0x50, 0x4E, 0x47];
    let jpg: [u8; 2] = [0xFF, 0xD8];
    let gif: [u8; 3] = [0x47, 0x49, 0x46];
    assert(png@ =~= seq![0x89u8, 0x50u8, 0x4Eu8, 0x47u8]);
    assert(jpg@ =~= seq![0xFFu8, 0xD8u8]);
    assert(gif@ =~= seq![0x47u8, 0x49u8, 0x46u8]);
    if bytes_start_with(bytes, png.as_slice()) {
        "image/png"
    } else if bytes_start_with(bytes, jpg.as_slice()) {
        "image/jpeg"
    } else if bytes_start_with(bytes, gif.as_slice()) {
        "image/gif"
    } else if bytes.len() >= 12 && bytes[0] == 0x52 && bytes[1] == 0x49 && bytes[2] == 0x46 && bytes[3] == 0x46
        && bytes[8] == 0x57 && bytes[9] == 0x45 && bytes[10] == 0x42 && bytes[11] == 0x50 {
        assert(bytes@.subrange(0, 4) =~= seq![0x52u8, 0x49u8, 0x46u8, 0x46u8]);
        assert(bytes@.subrange(8, 12) =~= seq![0x57u8, 0x45u8, 0x42u8, 0x50u8]);
        "image/webp"
    } else {
        proof {
            if bytes@.len() >= 12 && bytes@.subrange(0, 4) == seq![0x52u8, 0x49u8, 0x46u8, 0x46u8]
                && bytes@.subrange(8, 12) == seq![0x57u8, 0x45u8, 0x42u8, 0x50u8] {
                assert(bytes@[0] == bytes@.subrange(0, 4)[0]);
                assert(bytes@[1] == bytes@.subrange(0, 4)[1]);
                assert(bytes@[2] == bytes@.subrange(0, 4)[2]);
                assert(bytes@[3] == bytes@.subrange(0, 4)[3]);
                assert(bytes@[8] == bytes@.subrange(8, 12)[0]);
                assert(bytes@[9] == bytes@.subrange(8, 12)[1]);
                assert(bytes@[10] == bytes@.subrange(8, 12)[2]);
                assert(bytes@[11] == bytes@.subrange(8, 12)[3]);
            }
        }
        "image/jpeg"
    }
}

/// A file extension of an image the gallery imports (PNG, JPEG, WebP),
/// compared ignoring ASCII case.
pub open spec fn image_extension(ext: Seq<char>) -> bool {
    lower(ext) == "png"@ || lower(ext) == "jpg"@ || lower(ext) == "jpeg"@ || lower(ext) == "webp"@
}

/// Whether a file with this extension is an image to import.
pub fn is_image_extension(ext: &str) -> (r: bool)
    ensures
        r == image_extension(ext@),
{
    let l = ascii_lowercase(ext);
    let s = l.as_str();
    str_eq(s, "png") || str_eq(s, "jpg") || str_eq(s, "jpeg") || str_eq(s, "webp")
}

/// The subdirectories (relative to an extra model directory) where models of
/// a category may lie, in the layouts of common UIs.
pub open spec fn category_subdirs_of(category: Seq<char>) -> Seq<Seq<char>> {
    if category == "checkpoints"@ {
        seq!["checkpoints"@, "Stable-diffusion"@, "Stable-Diffusion"@, "StableDiffusion"@,
            "models/Stable-diffusion"@, "Models/Stable-Diffusion"@, "Models/StableDiffusion"@]
    } else if category == "loras"@ {
        seq!["loras"@, "lora"@, "Lora"@, "LoRA"@, "LoRAs"@, "LORA"@, "Loras"@, "LyCORIS"@, "lycoris"@,
            "models/Lora"@, "models/loras"@, "models/LyCORIS"@, "Models/Lora"@, "Models/loras"@,
            "Models/LyCORIS"@]
    } else if category == "vae"@ {
        seq!["vae"@, "VAE"@, "models/VAE"@, "Models/VAE"@]
    } else if category == "upscale_models"@ {
        seq!["upscale_models"@, "ESRGAN"@, "models/ESRGAN"@, "models/RealESRGAN"@, "Models/ESRGAN"@,
            "Models/RealESRGAN"@]
    } else if category == "embeddings"@ {
        seq!["embeddings"@, "models/TextualInversion"@, "Models/TextualInversion"@]
    } else if category == "controlnet"@ {
        seq!["controlnet"@, "ControlNet"@, "models/ControlNet"@, "Models/ControlNet"@]
    } else if category == "clip"@ {
        seq!["clip"@, "models/clip"@, "Models/clip"@]
    } else if category == "unet"@ {
        seq!["unet"@, "models/unet"@, "Models/unet"@]
    } else if category == "diffusion_models"@ {
        seq!["diffusion_models"@, "models/diffusion_models"@, "Models/diffusion_models"@]
    } else if category == "text_encoders"@ {
        seq!["text_encoders"@, "models/text_encoders"@, "Models/text_encoders"@]
    } else {
        Seq::empty()
    }
}

/// The subdirectories where models of a category may lie.
pub fn category_subdirs(category: &str) -> (r: Vec<&'static str>)
    ensures
        r@.map_values(|s: &str| s@) == category_subdirs_of(category@),
{
    let r: Vec<&'static str> = if str_eq(category, "checkpoints") {
        vec!["checkpoints", "Stable-diffusion", "Stable-Diffusion", "StableDiffusion", "models/Stable-diffusion",
            "Models/Stable-Diffusion", "Models/StableDiffusion"]
    } else if str_eq(category, "loras") {
        vec!["loras", "lora", "Lora", "LoRA", "LoRAs", "LORA", "Loras", "LyCORIS", "lycoris", "models/Lora",
            "models/loras", "models/LyCORIS", "Models/Lora", "Models/loras", "Models/LyCORIS"]
    } else if str_eq(category, "vae") {
        vec!["vae", "VAE", "models/VAE", "Models/VAE"]
    } else if str_eq(category, "upscale_models") {
        vec!["upscale_models", "ESRGAN", "models/ESRGAN", "models/RealESRGAN", "Models/ESRGAN", "Models/RealESRGAN"]
    } else if str_eq(category, "embeddings") {
        vec!["embeddings", "models/TextualInversion", "Models/TextualInversion"]
    } else if str_eq(category, "controlnet") {
        vec!["controlnet", "ControlNet", "models/ControlNet", "Models/ControlNet"]
    } else if str_eq(category, "clip") {
        vec!["clip", "models/clip", "Models/clip"]
    } else if str_eq(category, "unet") {
        vec!["unet", "models/unet", "Models/unet"]
    } else if str_eq(category, "diffusion_models") {
        vec!["diffusion_models", "models/diffusion_models", "Models/diffusion_models"]
    } else if str_eq(category, "text_encoders") {
        vec!["text_encoders", "models/text_encoders", "Models/text_encoders"]
    } else {
        Vec::new()
    };
    assert(r@.map_values(|s: &str| s@) =~= category_subdirs_of(category@));
    r
}

/// The extra model directories of a setting split at newlines: trimmed,
/// blank ones skipped.
pub open spec fn extra_dirs_of(setting: Seq<char>) -> Seq<Seq<char>> {
    split_char(setting, '\n').map_values(|l: Seq<char>| trim(l)).filter(|l: Seq<char>| l.len() > 0)
}

/// The candidates for one extra directory: each category subdirectory, then
/// the directory itself (a flat directory).
pub open spec fn dir_candidates(dir: Seq<char>, subdirs: Seq<Seq<char>>, filename: Seq<char>) -> Seq<Seq<Seq<char>>> {
    subdirs.map_values(|s: Seq<char>| seq![dir, s, filename]) + seq![seq![dir, filename]]
}

/// The candidates for the extra directories `dirs[..k]`, in order.
pub open spec fn extra_candidates(dirs: Seq<Seq<char>>, subdirs: Seq<Seq<char>>, filename: Seq<char>, k: int) -> Seq<Seq<Seq<char>>>
    decreases k,
{
    if k <= 0 || k > dirs.len() {
        Seq::empty()
    } else {
        extra_candidates(dirs, subdirs, filename, k - 1) + dir_candidates(dirs[k - 1], subdirs, filename)
    }
}

/// Where a model file may lie, as path components to join, in the order to
/// try them: `models/<category>/<file>` of the ComfyUI installation, then for
/// each extra directory its category subdirectories and its root. The first
/// that exists is the model's path.
pub open spec fn model_candidates_of(
    comfyui_path: Seq<char>,
    extra: Option<Seq<char>>,
    category: Seq<char>,
    filename: Seq<char>,
) -> Seq<Seq<Seq<char>>> {
    seq![seq![comfyui_path, "models"@, category, filename]] + match extra {
        Some(e) => {
            let dirs = extra_dirs_of(e);
            extra_candidates(dirs, category_subdirs_of(category), filename, dirs.len() as int)
        },
        None => Seq::empty(),
    }
}

/// The view of a list of candidate paths.
pub open spec fn candidates_view(v: Seq<Vec<String>>) -> Seq<Seq<Seq<char>>> {
    v.map_values(|c: Vec<String>| c@.map_values(|s: String| s@))
}

/// The places to look for a model file (see [`model_candidates_of`]).
pub fn model_path_candidates(
    comfyui_path: &str,
    extra_model_paths: Option<&str>,
    category: &str,
    filename: &str,
) -> (r: Vec<Vec<String>>)
    ensures
        candidates_view(r@) == model_candidates_of(
            comfyui_path@,
            match extra_model_paths { Some(e) => Some(e@), None => None },
            category@,
            filename@,
        ),
{
    let mut out: Vec<Vec<String>> = Vec::new();
    let mut first: Vec<String> = Vec::new();
    first.push(String::from_str(comfyui_path));
    first.push(String::from_str("models"));
    first.push(String::from_str(category));
    first.push(String::from_str(filename));
    assert(first@.map_values(|s: String| s@) =~= seq![comfyui_path@, "models"@, category@, filename@]);
    out.push(first);
    assert(candidates_view(out@) =~= seq![seq![comfyui_path@, "models"@, category@, filename@]]);
    match extra_model_paths {
        None => {
            assert(candidates_view(out@) =~= seq![seq![comfyui_path@, "models"@, category@, filename@]] + Seq::<
                Seq<Seq<char>>,
            >::empty());
        },
        Some(extra) => {
            let subs = category_subdirs(category);
            let ghost sv = subs@.map_values(|s: &str| s@);
            let dirs = extra_dirs(extra);
            let ghost dv = dirs@.map_values(|d: String| d@);
            let ghost head = candidates_view(out@);
            let mut i: usize = 0;
            while i < dirs.len()
                invariant
                    i <= dirs@.len(),
                    sv == subs@.map_values(|s: &str| s@),
                    dv == dirs@.map_values(|d: String| d@),
                    candidates_view(out@) == head + extra_candidates(dv, sv, filename@, i as int),
                decreases dirs@.len() - i,
            {
                let ghost before = candidates_view(out@);
                let mut j: usize = 0;
                while j < subs.len()
                    invariant
                        i < dirs@.len(),
                        j <= subs@.len(),
                        sv == subs@.map_values(|s: &str| s@),
                        dv == dirs@.map_values(|d: String| d@),
                        candidates_view(out@) == before + sv.take(j as int).map_values(
                            |s: Seq<char>| seq![dv[i as int], s, filename@],
                        ),
                    decreases subs@.len() - j,
                {
                    let ghost b2 = candidates_view(out@);
                    let mut c: Vec<String> = Vec::new();
                    c.push(dirs[i].clone());
                    c.push(String::from_str(subs[j]));
                    c.push(String::from_str(filename));
                    assert(c@.map_values(|s: String| s@) =~= seq![dv[i as int], sv[j as int], filename@]);
                    out.push(c);
                    assert(candidates_view(out@) =~= b2.push(seq![dv[i as int], sv[j as int], filename@]));
                    assert(sv.take(j + 1).map_values(|s: Seq<char>| seq![dv[i as int], s, filename@]) =~= sv.take(
                        j as int,
                    ).map_values(|s: Seq<char>| seq![dv[i as int], s, filename@]).push(
                        seq![dv[i as int], sv[j as int], filename@],
                    ));
                    j += 1;
                }
                let ghost b3 = candidates_view(out@);
                let mut c: Vec<String> = Vec::new();
                c.push(dirs[i].clone());
                c.push(String::from_str(filename));
                assert(c@.map_values(|s: String| s@) =~= seq![dv[i as int], filename@]);
                out.push(c);
                proof {
                    assert(candidates_view(out@) =~= b3.push(seq![dv[i as int], filename@]));
                    assert(sv.take(j as int) =~= sv);
                    assert(extra_candidates(dv, sv, filename@, i + 1) == extra_candidates(dv, sv, filename@, i as int)
                        + dir_candidates(dv[i as int], sv, filename@));
                    assert(candidates_view(out@) =~= head + extra_candidates(dv, sv, filename@, i + 1));
                }
                i += 1;
            }
        },
    }
    out
}

/// The extra model directories of a setting split at newlines.
pub fn extra_dirs(setting: &str) -> (r: Vec<String>)
    ensures
        r@.map_values(|d: String| d@) == extra_dirs_of(setting@),
{
    let cs = chars_of(setting);
    let parts = split_chars(&cs, '\n');
    let ghost tv = parts@.map_values(|x: String| x@).map_values(|l: Seq<char>| trim(l));
    let ghost keep = |l: Seq<char>| l.len() > 0;
    let mut out: Vec<String> = Vec::new();
    let mut i: usize = 0;
    while i < parts.len()
        invariant
            i <= parts@.len(),
            tv == parts@.map_values(|x: String| x@).map_values(|l: Seq<char>| trim(l)),
            tv == split_char(setting@, '\n').map_values(|l: Seq<char>| trim(l)),
            keep == (|l: Seq<char>| l.len() > 0),
            out@.map_values(|d: String| d@) == tv.take(i as int).filter(keep),
        decreases parts@.len() - i,
    {
        let pc = chars_of(parts[i].as_str());
        let t = trim_chars(&pc, 0, pc.len());
        proof {
            assert(pc@.subrange(0, pc@.len() as int) =~= pc@);
            assert(t@ == tv[i as int]);
            assert(tv.take(i + 1) =~= tv.take(i as int).push(tv[i as int]));
            tv.take(i as int).lemma_filter_push(tv[i as int], keep);
        }
        if t.unicode_len() > 0 {
            let ghost before = out@;
            out.push(t);
            assert(out@.map_values(|d: String| d@) =~= before.map_values(|d: String| d@).push(tv[i as int]));
        }
        i += 1;
    }
    assert(tv.take(i as int) =~= tv);
    out
}

// ---------------------------------------------------------------------------
// Gallery thumbnails
// ---------------------------------------------------------------------------

/// Why a thumbnail could not be made, with the image crate's message: the
/// file did not decode as an image, or the thumbnail did not encode as WebP.
pub enum ThumbnailFailure {
    Decode(String),
    Encode(String),
}

/// The WebP thumbnail the image crate makes of an image file's bytes: the
/// image decoded (its format guessed from the bytes), scaled to fit
/// `max_size` by `max_size` keeping its aspect ratio
/// (`DynamicImage::thumbnail`), and encoded as WebP; `None` when decoding or
/// encoding fails. A function of its arguments alone.
pub uninterp spec fn webp_thumbnail_of(bytes: Seq<u8>, max_size: u32) -> Option<Seq<u8>>;

/// image `load_from_memory`, `DynamicImage::thumbnail` and `write_to` with
/// `ImageFormat::WebP`: the thumbnail's WebP bytes, or the stage that failed
/// with the crate's message.
#[verifier::external_body]
fn thumbnail_webp(bytes: &[u8], max_size: u32) -> (r: Result<Vec<u8>, ThumbnailFailure>)
    ensures
        match r {
            Ok(v) => webp_thumbnail_of(bytes@, max_size) == Some(v@),
            Err(_) => webp_thumbnail_of(bytes@, max_size) is None,
        },
{
    let img = match image::load_from_memory(bytes) {
        Ok(i) => i,
        Err(e) => return Err(ThumbnailFailure::Decode(e.to_string())),
    };
    let mut buf = std::io::Cursor::new(Vec::new());
    match img.thumbnail(max_size, max_size).write_to(&mut buf, image::ImageFormat::WebP) {
        Ok(()) => Ok(buf.into_inner()),
        Err(e) => Err(ThumbnailFailure::Encode(e.to_string())),
    }
}

/// A WebP thumbnail of a gallery image (the `thumbnail://` scheme), given
/// the requested file name and the file's bytes. A name that is not a plain
/// file name is refused first; then the image crate makes the thumbnail.
pub fn generate_thumbnail(filename: &str, bytes: &[u8], max_size: u32) -> (r: Result<Vec<u8>, String>)
    ensures
        !plain_filename(filename@) ==> (r matches Err(m) && m@ == "Invalid filename"@),
        plain_filename(filename@) ==> match webp_thumbnail_of(bytes@, max_size) {
            Some(t) => r matches Ok(v) && v@ == t,
            None => r matches Err(m) && (has_prefix(m@, "Decode failed: "@) || has_prefix(m@, "Encode failed: "@)),
        },
{
    if !is_plain_filename(filename) {
        return Err(String::from_str("Invalid filename"));
    }
    match thumbnail_webp(bytes, max_size) {
        Ok(v) => Ok(v),
        Err(ThumbnailFailure::Decode(e)) => {
            let mut m = String::from_str("Decode failed: ");
            let ghost p = m@;
            push_str(&mut m, e.as_str());
            proof {
                reveal_strlit("Decode failed: ");
                assert(m@.subrange(0, p.len() as int) =~= p);
            }
            Err(m)
        },
        Err(ThumbnailFailure::Encode(e)) => {
            let mut m = String::from_str("Encode failed: ");
            let ghost p = m@;
            push_str(&mut m, e.as_str());
            proof {
                reveal_strlit("Encode failed: ");
                assert(m@.subrange(0, p.len() as int) =~= p);
            }
            Err(m)
        },
    }
}

} // verus!
