//! Checks made around model downloads from the ComfyUI HTTP client: which
//! model categories are optional, which hosts are Hugging Face, whether a
//! response carries model bytes, and whether a downloaded `.safetensors` file
//! is complete. Also the SHA-256 of model files, fed in chunks, and the LoRA
//! and checkpoint panels built from ModelSpec fields, a preview image and a
//! CivitAI lookup.
use vstd::prelude::*;
use crate::text::{contains, str_contains, occurs_at, trim, chars_of, trim_chars, push_str, decimal, u64_to_string};
use crate::auth::{lower, ascii_lowercase, hex_of, hex_encode, sha256_digest};
use crate::strmap::str_eq;
use crate::error::AppError;
use crate::prompt_queue::clone_owner;
use crate::types::{CheckpointCivitaiInfo, LoraCivitaiImage, LoraCivitaiInfo};

verus! {

/// The model categories a workflow can run without.
pub open spec fn optional_category(c: Seq<char>) -> bool {
    c == "diffusion_models"@ || c == "unet"@ || c == "text_encoders"@ || c == "clip"@ || c == "controlnet"@
        || c == "ultralytics"@
}

/// Whether a model category is optional.
pub fn is_optional_model_category(category: &str) -> (r: bool)
    ensures
        r == optional_category(category@),
{
    str_eq(category, "diffusion_models") || str_eq(category, "unet") || str_eq(category, "text_encoders")
        || str_eq(category, "clip") || str_eq(category, "controlnet") || str_eq(category, "ultralytics")
}

/// The host of a URL as `url::Url::parse` reads it (`host_str`); None when
/// the text does not parse or the URL has no host.
pub uninterp spec fn url_host_of(url: Seq<char>) -> Option<Seq<char>>;

/// url `Url::parse` then `host_str`: the host text of the parsed URL, a
/// function of the URL text alone.
#[verifier::external_body]
fn url_host(url: &str) -> (r: Option<String>)
    ensures
        match r {
            Some(h) => url_host_of(url@) == Some(h@),
            None => url_host_of(url@) is None,
        },
{
    url::Url::parse(url).ok().and_then(|u| u.host_str().map(|h| h.to_string()))
}

/// `s` ends with `suffix`.
pub open spec fn ends_with(s: Seq<char>, suffix: Seq<char>) -> bool {
    suffix.len() <= s.len() && s.skip(s.len() - suffix.len()) == suffix
}

/// The URL is served by Hugging Face: its host, ASCII-lowercased, is
/// `huggingface.co` or a subdomain of it.
pub open spec fn huggingface_url(url: Seq<char>) -> bool {
    match url_host_of(url) {
        Some(h) => lower(h) == "huggingface.co"@ || ends_with(lower(h), ".huggingface.co"@),
        None => false,
    }
}

/// Whether the text ends with the suffix.
fn str_ends_with(s: &str, suffix: &str) -> (r: bool)
    ensures
        r == ends_with(s@, suffix@),
{
    let a = chars_of(s);
    let b = chars_of(suffix);
    if b.len() > a.len() {
        return false;
    }
    let al = a.len();
    let off = al - b.len();
    let mut i: usize = 0;
    while i < b.len()
        invariant
            a@ == s@,
            b@ == suffix@,
            off == a@.len() - b@.len(),
            a@.len() == off + b@.len(),
            al == a@.len(),
            i <= b@.len(),
            forall|k: int| 0 <= k < i ==> a@[off + k] == b@[k],
        decreases b@.len() - i,
    {
        assert(off + i < a@.len());
        if a[off + i] != b[i] {
            assert(s@.skip(off as int)[i as int] != suffix@[i as int]);
            return false;
        }
        i += 1;
    }
    assert(s@.skip(off as int) =~= suffix@);
    true
}

/// Whether the URL is served by Hugging Face.
pub fn is_huggingface_url(url: &str) -> (r: bool)
    ensures
        r == huggingface_url(url@),
{
    match url_host(url) {
        Some(h) => {
            let l = ascii_lowercase(h.as_str());
            str_eq(l.as_str(), "huggingface.co") || str_ends_with(l.as_str(), ".huggingface.co")
        },
        None => false,
    }
}

/// The first of the values that is not blank.
pub open spec fn first_token(vals: Seq<Option<Seq<char>>>) -> Option<Seq<char>>
    decreases vals.len(),
{
    if vals.len() == 0 {
        None
    } else {
        match vals[0] {
            Some(v) => if trim(v).len() > 0 { Some(v) } else { first_token(vals.drop_first()) },
            None => first_token(vals.drop_first()),
        }
    }
}

/// The access token to send with a download: for a Hugging Face URL, the
/// first non-blank of the `HF_TOKEN`, `HUGGINGFACE_HUB_TOKEN` and
/// `HUGGINGFACE_TOKEN` values, given in that order.
pub fn huggingface_token_for_url(url: &str, env_values: &Vec<Option<String>>) -> (r: Option<String>)
    ensures
        r.deep_view() == (if huggingface_url(url@) { first_token(env_values@.map_values(|v: Option<String>| v.deep_view())) } else { None }),
{
    if !is_huggingface_url(url) {
        return None;
    }
    let ghost vals = env_values@.map_values(|v: Option<String>| v.deep_view());
    assert(vals.skip(0) =~= vals);
    let mut i: usize = 0;
    while i < env_values.len()
        invariant
            i <= env_values@.len(),
            vals == env_values@.map_values(|v: Option<String>| v.deep_view()),
            first_token(vals) == first_token(vals.skip(i as int)),
            huggingface_url(url@),
        decreases env_values@.len() - i,
    {
        assert(vals.skip(i as int).drop_first() =~= vals.skip(i + 1));
        assert(vals.skip(i as int)[0] == vals[i as int]);
        match &env_values[i] {
            Some(v) => {
                let cs = chars_of(v.as_str());
                let t = trim_chars(&cs, 0, cs.len());
                assert(cs@.subrange(0, cs@.len() as int) =~= cs@);
                if t.unicode_len() > 0 {
                    let c = v.clone();
                    assert(vals[i as int] == Some(v@));
                    assert(c@ == v@);
                    return Some(c);
                }
            },
            None => {},
        }
        i += 1;
    }
    assert(vals.skip(i as int) =~= Seq::<Option<Seq<char>>>::empty());
    None
}

/// The message for a download answered with an HTTP error status (`status`
/// is its code, `status_text` how it is displayed, such as `404 Not Found`).
pub open spec fn download_status_message(url: Seq<char>, status: u16, status_text: Seq<char>) -> Seq<char> {
    if huggingface_url(url) && (status == 401 || status == 403) {
        "Failed to download "@ + url + ": HTTP "@ + status_text
            + ". This Hugging Face file requires access; set HF_TOKEN, HUGGINGFACE_HUB_TOKEN, or HUGGINGFACE_TOKEN, or install the file manually."@
    } else {
        "Failed to download "@ + url + ": HTTP "@ + status_text
    }
}

/// The message for a download answered with an HTTP error status.
pub fn download_status_error_message(url: &str, status: u16, status_text: &str) -> (r: String)
    ensures
        r@ == download_status_message(url@, status, status_text@),
{
    let mut m = String::from_str("Failed to download ");
    push_str(&mut m, url);
    push_str(&mut m, ": HTTP ");
    push_str(&mut m, status_text);
    if (status == 401 || status == 403) && is_huggingface_url(url) {
        push_str(
            &mut m,
            ". This Hugging Face file requires access; set HF_TOKEN, HUGGINGFACE_HUB_TOKEN, or HUGGINGFACE_TOKEN, or install the file manually.",
        );
    }
    m
}

/// A content type that marks an error page rather than model bytes.
pub open spec fn error_body_type(ct: Seq<char>) -> bool {
    contains(ct, "text/html"@) || contains(ct, "text/plain"@) || contains(ct, "application/json"@) || contains(
        ct,
        "application/problem+json"@,
    ) || contains(ct, "application/xml"@) || contains(ct, "text/xml"@)
}

/// `e` is an API error with this status and message.
pub open spec fn api_error_is(e: AppError, status: u16, message: Seq<char>) -> bool {
    match e {
        AppError::ApiError { status: s, message: m } => s == status && m@ == message,
        _ => false,
    }
}

/// Refuse a download whose (lowercased) content type is that of an HTML,
/// text, JSON or XML body: such a body is an error page, not a model.
pub fn reject_non_model_download_content_type(url: &str, content_type: &str) -> (r: Result<(), AppError>)
    ensures
        r is Ok <==> !error_body_type(lower(content_type@)),
        r matches Err(e) ==> api_error_is(e, 200, "The URL returned '"@ + lower(content_type@)
            + "' instead of model bytes for "@ + url@
            + ". This usually means the download requires authentication, a direct file URL, or a different token."@),
{
    let ct = ascii_lowercase(content_type);
    let c = ct.as_str();
    if str_contains(c, "text/html") || str_contains(c, "text/plain") || str_contains(c, "application/json")
        || str_contains(c, "application/problem+json") || str_contains(c, "application/xml") || str_contains(
        c,
        "text/xml",
    ) {
        let mut m = String::from_str("The URL returned '");
        push_str(&mut m, c);
        push_str(&mut m, "' instead of model bytes for ");
        push_str(&mut m, url);
        push_str(
            &mut m,
            ". This usually means the download requires authentication, a direct file URL, or a different token.",
        );
        return Err(AppError::ApiError { status: 200, message: m });
    }
    Ok(())
}

/// The extension, ASCII-lowercased, is `safetensors` or `sft`.
pub open spec fn safetensors_extension(extension: Option<&str>) -> bool {
    match extension {
        Some(e) => lower(e@) == "safetensors"@ || lower(e@) == "sft"@,
        None => false,
    }
}

/// Check a downloaded model file of `size` bytes with this file extension:
/// an empty file is refused; otherwise the result says whether it is a
/// `.safetensors` (or `.sft`) file whose header is to be checked.
pub fn validate_downloaded_model_file(filename: &str, size: u64, extension: Option<&str>) -> (r: Result<bool, AppError>)
    ensures
        size == 0 ==> (r matches Err(AppError::Other(m)) && m@ == "Downloaded model '"@ + filename@ + "' is empty"@),
        size > 0 ==> r == Ok::<bool, AppError>(safetensors_extension(extension)),
{
    if size == 0 {
        let mut m = String::from_str("Downloaded model '");
        push_str(&mut m, filename);
        push_str(&mut m, "' is empty");
        return Err(AppError::Other(m));
    }
    match extension {
        Some(e) => {
            let l = ascii_lowercase(e);
            Ok(str_eq(l.as_str(), "safetensors") || str_eq(l.as_str(), "sft"))
        },
        None => Ok(false),
    }
}

/// Refuse a `.safetensors` file too small to hold its 8-byte header length
/// and any header.
pub fn check_safetensors_file_size(filename: &str, file_size: u64) -> (r: Result<(), AppError>)
    ensures
        r is Ok <==> file_size >= 9,
        r matches Err(e) ==> (e matches AppError::Other(m) && m@ == "'"@ + filename@
            + "' is too small to be a valid safetensors file"@),
{
    if file_size < 9 {
        let mut m = String::from_str("'");
        push_str(&mut m, filename);
        push_str(&mut m, "' is too small to be a valid safetensors file");
        return Err(AppError::Other(m));
    }
    Ok(())
}

/// The largest header a `.safetensors` file may declare (100 MiB).
pub const MAX_SAFETENSORS_HEADER: u64 = 104857600;

/// Refuse a declared header length that is zero, above 100 MiB, or runs past
/// the end of the file.
pub fn check_safetensors_header_size(filename: &str, file_size: u64, header_size: u64) -> (r: Result<(), AppError>)
    ensures
        r is Ok <==> (header_size > 0 && header_size <= MAX_SAFETENSORS_HEADER && 8 + header_size <= file_size),
        (header_size == 0 || header_size > MAX_SAFETENSORS_HEADER) ==> (r matches Err(AppError::Other(m)) && m@ == "'"@
            + filename@ + "' has an invalid safetensors header size ("@ + decimal(header_size as nat) + ")"@),
        (header_size > 0 && header_size <= MAX_SAFETENSORS_HEADER && 8 + header_size > file_size) ==> (r matches Err(
            AppError::Other(m),
        ) && m@ == "'"@ + filename@ + "' is incomplete: safetensors header declares "@ + decimal(header_size as nat)
            + " bytes but the file is only "@ + decimal(file_size as nat) + " bytes"@),
{
    if header_size == 0 || header_size > MAX_SAFETENSORS_HEADER {
        let mut m = String::from_str("'");
        push_str(&mut m, filename);
        push_str(&mut m, "' has an invalid safetensors header size (");
        let n = u64_to_string(header_size);
        push_str(&mut m, n.as_str());
        push_str(&mut m, ")");
        return Err(AppError::Other(m));
    }
    if 8 + header_size > file_size {
        let mut m = String::from_str("'");
        push_str(&mut m, filename);
        push_str(&mut m, "' is incomplete: safetensors header declares ");
        let n = u64_to_string(header_size);
        push_str(&mut m, n.as_str());
        push_str(&mut m, " bytes but the file is only ");
        let f = u64_to_string(file_size);
        push_str(&mut m, f.as_str());
        push_str(&mut m, " bytes");
        return Err(AppError::Other(m));
    }
    Ok(())
}

/// The tensors of a header given as (key, end offset of its data): every
/// key but `__metadata__`.
pub open spec fn tensor_entries(entries: Seq<(Seq<char>, Option<u64>)>) -> Seq<(Seq<char>, Option<u64>)> {
    entries.filter(|e: (Seq<char>, Option<u64>)| e.0 != "__metadata__"@)
}

/// The largest data end offset among the entries (0 when none has one).
pub open spec fn max_end(entries: Seq<(Seq<char>, Option<u64>)>) -> u64
    decreases entries.len(),
{
    if entries.len() == 0 {
        0
    } else {
        let m = max_end(entries.drop_last());
        match entries.last().1 {
            Some(e) => if e > m { e } else { m },
            None => m,
        }
    }
}

/// How many tensors a header lists and where the last tensor data ends.
pub fn safetensors_extent(entries: &Vec<(String, Option<u64>)>) -> (r: (usize, u64))
    ensures
        ({
            let ev = entries@.map_values(|e: (String, Option<u64>)| (e.0@, e.1));
            r.0 == tensor_entries(ev).len() && r.1 == max_end(tensor_entries(ev))
        }),
{
    let ghost ev = entries@.map_values(|e: (String, Option<u64>)| (e.0@, e.1));
    let ghost keep = |e: (Seq<char>, Option<u64>)| e.0 != "__metadata__"@;
    let mut count: usize = 0;
    let mut end: u64 = 0;
    let mut i: usize = 0;
    while i < entries.len()
        invariant
            i <= entries@.len(),
            ev == entries@.map_values(|e: (String, Option<u64>)| (e.0@, e.1)),
            keep == (|e: (Seq<char>, Option<u64>)| e.0 != "__metadata__"@),
            count == ev.take(i as int).filter(keep).len(),
            end == max_end(ev.take(i as int).filter(keep)),
            count <= i,
        decreases entries@.len() - i,
    {
        proof {
            assert(ev.take(i + 1) =~= ev.take(i as int).push(ev[i as int]));
            ev.take(i as int).lemma_filter_push(ev[i as int], keep);
        }
        if !str_eq(entries[i].0.as_str(), "__metadata__") {
            count += 1;
            match entries[i].1 {
                Some(e) => {
                    if e > end {
                        end = e;
                    }
                },
                None => {},
            }
            assert(ev.take(i + 1).filter(keep).drop_last() =~= ev.take(i as int).filter(keep));
        }
        i += 1;
    }
    assert(ev.take(i as int) =~= ev);
    (count, end)
}

/// Refuse a header without tensors, or whose tensor data runs past the end
/// of the file.
pub fn check_safetensors_extent(
    filename: &str,
    file_size: u64,
    header_size: u64,
    tensor_count: usize,
    data_end: u64,
) -> (r: Result<(), AppError>)
    requires
        8 + header_size + data_end <= u64::MAX,
    ensures
        r is Ok <==> (tensor_count > 0 && 8 + header_size + data_end <= file_size),
        tensor_count == 0 ==> (r matches Err(AppError::Other(m)) && m@ == "'"@ + filename@
            + "' has no tensors in its safetensors header"@),
        tensor_count > 0 && 8 + header_size + data_end > file_size ==> (r matches Err(AppError::Other(m)) && m@
            == "'"@ + filename@ + "' is incomplete: tensor data ends at byte "@ + decimal(
            (8 + header_size + data_end) as nat,
        ) + " but the file is only "@ + decimal(file_size as nat) + " bytes"@),
{
    if tensor_count == 0 {
        let mut m = String::from_str("'");
        push_str(&mut m, filename);
        push_str(&mut m, "' has no tensors in its safetensors header");
        return Err(AppError::Other(m));
    }
    let required = 8 + header_size + data_end;
    if required > file_size {
        let mut m = String::from_str("'");
        push_str(&mut m, filename);
        push_str(&mut m, "' is incomplete: tensor data ends at byte ");
        let n = u64_to_string(required);
        push_str(&mut m, n.as_str());
        push_str(&mut m, " but the file is only ");
        let f = u64_to_string(file_size);
        push_str(&mut m, f.as_str());
        push_str(&mut m, " bytes");
        return Err(AppError::Other(m));
    }
    Ok(())
}


// ---------------------------------------------------------------------------
// CivitAI lookups and model sidecars
// ---------------------------------------------------------------------------

/// The CivitAI address of the model version with this AutoV2 hash.
pub fn civitai_hash_url(autov2: &str) -> (r: String)
    ensures
        r@ == "https://civitai.com/api/v1/model-versions/by-hash/"@ + autov2@,
{
    let mut r = String::from_str("https://civitai.com/api/v1/model-versions/by-hash/");
    push_str(&mut r, autov2);
    r
}

/// The CivitAI API key to send: the configured one unless it is blank.
pub fn civitai_api_key(key: &Option<String>) -> (r: Option<&str>)
    ensures
        match r {
            Some(k) => key matches Some(c) && k@ == c@ && trim(c@).len() > 0,
            None => !(key matches Some(c) && trim(c@).len() > 0),
        },
{
    match key {
        Some(k) => {
            let cs = chars_of(k.as_str());
            let t = trim_chars(&cs, 0, cs.len());
            assert(cs@.subrange(0, cs@.len() as int) =~= cs@);
            if t.as_str().unicode_len() > 0 {
                Some(k.as_str())
            } else {
                None
            }
        },
        None => None,
    }
}

/// The label of a CivitAI image's NSFW level: `None` up to 1, else
/// `Level` and the number.
pub fn nsfw_label(level: u64) -> (r: String)
    ensures
        r@ == if level <= 1 { "None"@ } else { "Level"@ + decimal(level as nat) },
{
    if level <= 1 {
        String::from_str("None")
    } else {
        let mut r = String::from_str("Level");
        let n = u64_to_string(level);
        push_str(&mut r, n.as_str());
        r
    }
}

/// The ModelSpec fields among a safetensors header's metadata entries: the
/// keys that start with `modelspec.`, with that prefix removed, in order.
pub open spec fn modelspec_fields_of(entries: Seq<(Seq<char>, Seq<char>)>) -> Seq<(Seq<char>, Seq<char>)>
    decreases entries.len(),
{
    if entries.len() == 0 {
        Seq::empty()
    } else {
        let rest = modelspec_fields_of(entries.drop_last());
        let (k, v) = entries.last();
        if k.len() >= 10 && k.take(10) == "modelspec."@ { rest.push((k.skip(10), v)) } else { rest }
    }
}

/// The ModelSpec fields of a safetensors header (see
/// [`modelspec_fields_of`]).
pub fn modelspec_fields(entries: &Vec<(String, String)>) -> (r: Vec<(String, String)>)
    ensures
        r@.map_values(|e: (String, String)| (e.0@, e.1@)) == modelspec_fields_of(entries@.map_values(
            |e: (String, String)| (e.0@, e.1@),
        )),
{
    let ghost ev = entries@.map_values(|e: (String, String)| (e.0@, e.1@));
    let mut out: Vec<(String, String)> = Vec::new();
    let mut i: usize = 0;
    proof {
        reveal_strlit("modelspec.");
    }
    while i < entries.len()
        invariant
            i <= entries@.len(),
            ev == entries@.map_values(|e: (String, String)| (e.0@, e.1@)),
            out@.map_values(|e: (String, String)| (e.0@, e.1@)) == modelspec_fields_of(ev.take(i as int)),
            "modelspec."@.len() == 10,
        decreases entries@.len() - i,
    {
        let kc = chars_of(entries[i].0.as_str());
        let prefix = chars_of("modelspec.");
        assert(ev.take(i + 1).drop_last() =~= ev.take(i as int));
        assert(ev.take(i + 1).last() == ev[i as int]);
        if kc.len() >= 10 && crate::text::occurs_at_exec(&kc, &prefix, 0) {
            assert(kc@.subrange(0, 10) =~= kc@.take(10));
            let field = crate::text::string_of(&kc, 10, kc.len());
            assert(kc@.subrange(10, kc@.len() as int) =~= kc@.skip(10));
            let ghost before = out@.map_values(|e: (String, String)| (e.0@, e.1@));
            out.push((field, entries[i].1.clone()));
            assert(out@.map_values(|e: (String, String)| (e.0@, e.1@)) =~= before.push((kc@.skip(10), entries@[i as int].1@)));
        } else {
            proof {
                if kc@.len() >= 10 {
                    assert(kc@.subrange(0, 10) =~= kc@.take(10));
                }
            }
        }
        i += 1;
    }
    assert(ev.take(entries@.len() as int) =~= ev);
    out
}

/// The preview images looked for beside a checkpoint, in order of
/// preference: the file stem with `.png`, `.jpg`, `.jpeg`, `.preview.png`,
/// `.preview.jpg`.
pub fn sidecar_names(stem: &str) -> (r: Vec<String>)
    ensures
        r@.map_values(|s: String| s@) == seq![stem@ + ".png"@, stem@ + ".jpg"@, stem@ + ".jpeg"@,
            stem@ + ".preview.png"@, stem@ + ".preview.jpg"@],
{
    let mut r: Vec<String> = Vec::new();
    let mut a = String::from_str(stem);
    push_str(&mut a, ".png");
    r.push(a);
    let mut b = String::from_str(stem);
    push_str(&mut b, ".jpg");
    r.push(b);
    let mut c = String::from_str(stem);
    push_str(&mut c, ".jpeg");
    r.push(c);
    let mut d = String::from_str(stem);
    push_str(&mut d, ".preview.png");
    r.push(d);
    let mut e = String::from_str(stem);
    push_str(&mut e, ".preview.jpg");
    r.push(e);
    assert(r@.map_values(|s: String| s@) =~= seq![stem@ + ".png"@, stem@ + ".jpg"@, stem@ + ".jpeg"@,
        stem@ + ".preview.png"@, stem@ + ".preview.jpg"@]);
    r
}

/// The MIME type of a preview image by extension: JPEG for `jpg` and `jpeg`,
/// else PNG.
pub fn sidecar_mime(ext: &str) -> (r: &'static str)
    ensures
        r@ == if ext@ == "jpg"@ || ext@ == "jpeg"@ { "image/jpeg"@ } else { "image/png"@ },
{
    if str_eq(ext, "jpg") || str_eq(ext, "jpeg") {
        "image/jpeg"
    } else {
        "image/png"
    }
}

/// The character of a 6-bit value in the standard Base64 alphabet
/// (`A`-`Z`, `a`-`z`, `0`-`9`, `+`, `/`).
pub open spec fn base64_char(n: int) -> char {
    if n < 26 {
        (('A' as int) + n) as char
    } else if n < 52 {
        (('a' as int) + n - 26) as char
    } else if n < 62 {
        (('0' as int) + n - 52) as char
    } else if n == 62 {
        '+'
    } else {
        '/'
    }
}

/// The standard Base64 encoding (RFC 4648, with padding) of the bytes:
/// each group of three bytes becomes four characters; a last group of one
/// or two bytes is padded with `=`.
pub open spec fn base64_standard(b: Seq<u8>) -> Seq<char>
    decreases b.len(),
{
    if b.len() == 0 {
        Seq::empty()
    } else if b.len() == 1 {
        seq![base64_char((b[0] as int) / 4), base64_char(((b[0] as int) % 4) * 16), '=', '=']
    } else if b.len() == 2 {
        seq![base64_char((b[0] as int) / 4), base64_char(((b[0] as int) % 4) * 16 + (b[1] as int) / 16),
            base64_char(((b[1] as int) % 16) * 4), '=']
    } else {
        seq![base64_char((b[0] as int) / 4), base64_char(((b[0] as int) % 4) * 16 + (b[1] as int) / 16),
            base64_char(((b[1] as int) % 16) * 4 + (b[2] as int) / 64), base64_char((b[2] as int) % 64)]
            + base64_standard(b.skip(3))
    }
}

/// base64 `engine::general_purpose::STANDARD.encode`: the standard
/// alphabet with padding (RFC 4648), as the crate documents it.
#[verifier::external_body]
fn base64_encode(bytes: &[u8]) -> (r: String)
    ensures
        r@ == base64_standard(bytes@),
{
    base64::Engine::encode(&base64::engine::general_purpose::STANDARD, bytes)
}

/// A `data:` URL carrying the bytes with this MIME type, Base64-encoded.
pub fn data_url(mime: &str, bytes: &[u8]) -> (r: String)
    ensures
        r@ == "data:"@ + mime@ + ";base64,"@ + base64_standard(bytes@),
{
    let mut r = String::from_str("data:");
    push_str(&mut r, mime);
    push_str(&mut r, ";base64,");
    let b = base64_encode(bytes);
    push_str(&mut r, b.as_str());
    r
}


// ---------------------------------------------------------------------------
// SHA-256 of a file, fed in chunks
// ---------------------------------------------------------------------------

#[verifier::external_type_specification]
#[verifier::external_body]
pub struct ExSha256(sha2::Sha256);

/// The bytes fed so far to a SHA-256 hasher.
pub uninterp spec fn sha256_fed(h: sha2::Sha256) -> Seq<u8>;

/// sha2 `Sha256::new` (via `Digest`): a hasher that has been fed nothing.
#[verifier::external_body]
fn sha256_stream_new() -> (h: sha2::Sha256)
    ensures
        sha256_fed(h) == Seq::<u8>::empty(),
{
    <sha2::Sha256 as sha2::Digest>::new()
}

/// sha2 `Digest::update`: feeds the chunk after what was fed before.
#[verifier::external_body]
fn sha256_stream_update(h: &mut sha2::Sha256, chunk: &[u8])
    ensures
        sha256_fed(*final(h)) == sha256_fed(*old(h)) + chunk@,
{
    sha2::Digest::update(h, chunk)
}

/// sha2 `Digest::finalize`: the SHA-256 digest of everything fed.
#[verifier::external_body]
fn sha256_stream_finish(h: sha2::Sha256) -> (d: Vec<u8>)
    ensures
        d@ == sha256_digest(sha256_fed(h)),
        d@.len() == 32,
{
    sha2::Digest::finalize(h).to_vec()
}

/// A SHA-256 computation over data that arrives in chunks (a file read
/// piece by piece).
pub struct Sha256Stream {
    inner: sha2::Sha256,
}

impl Sha256Stream {
    /// The bytes fed so far.
    pub closed spec fn fed(&self) -> Seq<u8> {
        sha256_fed(self.inner)
    }

    /// A computation that has been fed nothing.
    pub fn new() -> (s: Self)
        ensures
            s.fed() == Seq::<u8>::empty(),
    {
        Sha256Stream { inner: sha256_stream_new() }
    }

    /// Feed the next chunk.
    pub fn update(&mut self, chunk: &[u8])
        ensures
            final(self).fed() == old(self).fed() + chunk@,
    {
        sha256_stream_update(&mut self.inner, chunk);
    }

    /// The 32-byte digest of everything fed.
    pub fn finish_digest(self) -> (d: Vec<u8>)
        ensures
            d@ == sha256_digest(self.fed()),
            d@.len() == 32,
    {
        sha256_stream_finish(self.inner)
    }

    /// The digest of everything fed, as lower-case hex (`{:x}`).
    pub fn finish_lower_hex(self) -> (r: String)
        ensures
            r@ == hex_of(sha256_digest(self.fed())),
    {
        let d = sha256_stream_finish(self.inner);
        hex_encode(d.as_slice())
    }

    /// The digest of everything fed, as upper-case hex (`{:X}`).
    pub fn finish_upper_hex(self) -> (r: String)
        ensures
            r@ == upper_hex_of(sha256_digest(self.fed())),
    {
        let d = sha256_stream_finish(self.inner);
        upper_hex_encode(d.as_slice())
    }
}

/// Upper-case hexadecimal digit of a nibble.
pub open spec fn upper_hex_digit(n: int) -> char {
    if n < 10 { (('0' as int) + n) as char } else { (('A' as int) + n - 10) as char }
}

/// Upper-case hexadecimal text of bytes, two digits per byte, high nibble
/// first.
pub open spec fn upper_hex_of(b: Seq<u8>) -> Seq<char>
    decreases b.len(),
{
    if b.len() == 0 {
        Seq::empty()
    } else {
        upper_hex_of(b.drop_last()) + seq![upper_hex_digit(b.last() as int / 16), upper_hex_digit(b.last() as int % 16)]
    }
}

fn upper_nibble_char(n: u8) -> (c: char)
    requires
        n < 16,
    ensures
        c == upper_hex_digit(n as int),
{
    if n < 10 {
        (0x30u8 + n) as char
    } else {
        (0x41u8 + n - 10) as char
    }
}

/// Upper-case hexadecimal text of bytes (`{:X}` of a digest).
pub fn upper_hex_encode(bytes: &[u8]) -> (s: String)
    ensures
        s@ == upper_hex_of(bytes@),
{
    let mut s = String::new();
    let mut i: usize = 0;
    while i < bytes.len()
        invariant
            i <= bytes@.len(),
            s@ == upper_hex_of(bytes@.take(i as int)),
        decreases bytes@.len() - i,
    {
        let b = bytes[i];
        crate::text::push_char(&mut s, upper_nibble_char(b / 16));
        crate::text::push_char(&mut s, upper_nibble_char(b % 16));
        assert(bytes@.take(i + 1).drop_last() =~= bytes@.take(i as int));
        assert(upper_hex_of(bytes@.take(i + 1)) =~= upper_hex_of(bytes@.take(i as int)) + seq![
            upper_hex_digit(b as int / 16), upper_hex_digit(b as int % 16)]);
        i += 1;
    }
    assert(bytes@.take(bytes@.len() as int) =~= bytes@);
    s
}

// ---------------------------------------------------------------------------
// Model panels: what is known of a LoRA or a checkpoint
// ---------------------------------------------------------------------------

/// A sample image of a CivitAI model version as the lookup returned it.
pub struct CivitaiImage {
    pub url: Option<String>,
    pub width: Option<u64>,
    pub height: Option<u64>,
    pub nsfw_level: Option<u64>,
}

/// What a CivitAI model-version lookup returned, as the fields that the
/// model panels read: the version and model ids, the base model, the
/// parent model's name, description and creator, the trained words, the
/// sample images and the download and thumbs-up counts.
pub struct CivitaiVersion {
    pub id: Option<u64>,
    pub model_id: Option<u64>,
    pub base_model: Option<String>,
    pub model_name: Option<String>,
    pub model_description: Option<String>,
    pub creator: Option<String>,
    pub trained_words: Vec<String>,
    pub images: Vec<CivitaiImage>,
    pub download_count: Option<u64>,
    pub thumbs_up_count: Option<u64>,
}

/// The value of `key` among ModelSpec fields: the first entry with that key.
pub open spec fn modelspec_value(m: Seq<(Seq<char>, Seq<char>)>, key: Seq<char>) -> Option<Seq<char>>
    decreases m.len(),
{
    if m.len() == 0 {
        None
    } else if m[0].0 == key {
        Some(m[0].1)
    } else {
        modelspec_value(m.skip(1), key)
    }
}

/// The ModelSpec fields as text pairs.
pub open spec fn fields_view(m: Seq<(String, String)>) -> Seq<(Seq<char>, Seq<char>)> {
    m.map_values(|e: (String, String)| (e.0@, e.1@))
}

/// The value of a ModelSpec field (see [`modelspec_value`]).
pub fn modelspec_get(m: &Vec<(String, String)>, key: &str) -> (r: Option<String>)
    ensures
        r.deep_view() == modelspec_value(fields_view(m@), key@),
{
    let ghost mv = fields_view(m@);
    let mut i: usize = 0;
    assert(mv.skip(0) =~= mv);
    while i < m.len()
        invariant
            i <= m@.len(),
            mv == fields_view(m@),
            modelspec_value(mv.skip(i as int), key@) == modelspec_value(mv, key@),
        decreases m@.len() - i,
    {
        assert(mv.skip(i as int)[0] == mv[i as int]);
        if str_eq(m[i].0.as_str(), key) {
            return Some(m[i].1.clone());
        }
        assert(mv.skip(i as int).skip(1) =~= mv.skip(i + 1));
        i += 1;
    }
    None
}

/// A sample image as the panels show it: the URL, the width and height
/// (as `u32`, as `as` truncates) and the NSFW label.
pub open spec fn image_view(i: LoraCivitaiImage) -> (Seq<char>, Option<u32>, Option<u32>, Option<Seq<char>>) {
    (i.url@, i.width, i.height, i.nsfw.deep_view())
}

/// The label of an NSFW level (see [`nsfw_label`]).
pub open spec fn nsfw_text(level: u64) -> Seq<char> {
    if level <= 1 { "None"@ } else { "Level"@ + decimal(level as nat) }
}

/// A CivitAI number narrowed to `u32` as `as` narrows it.
pub open spec fn narrow(o: Option<u64>) -> Option<u32> {
    match o {
        Some(n) => Some(n as u32),
        None => None,
    }
}

/// The sample images of a lookup as the panels show them: those with a URL,
/// in order.
pub open spec fn gallery_images(imgs: Seq<CivitaiImage>) -> Seq<(Seq<char>, Option<u32>, Option<u32>, Option<Seq<char>>)>
    decreases imgs.len(),
{
    if imgs.len() == 0 {
        Seq::empty()
    } else {
        let rest = gallery_images(imgs.drop_last());
        let im = imgs.last();
        match im.url {
            Some(u) => rest.push((u@, narrow(im.width), narrow(im.height), match im.nsfw_level {
                Some(n) => Some(nsfw_text(n)),
                None => None,
            })),
            None => rest,
        }
    }
}

/// The images of a panel as views.
pub open spec fn images_view(v: Seq<LoraCivitaiImage>) -> Seq<(Seq<char>, Option<u32>, Option<u32>, Option<Seq<char>>)> {
    v.map_values(|i: LoraCivitaiImage| image_view(i))
}

fn narrow_exec(o: Option<u64>) -> (r: Option<u32>)
    ensures
        r == narrow(o),
{
    match o {
        Some(n) => Some(n as u32),
        None => None,
    }
}

/// The sample images of a lookup as the panels show them.
pub fn gallery(imgs: &Vec<CivitaiImage>) -> (r: Vec<LoraCivitaiImage>)
    ensures
        images_view(r@) == gallery_images(imgs@),
{
    let mut out: Vec<LoraCivitaiImage> = Vec::new();
    let mut i: usize = 0;
    while i < imgs.len()
        invariant
            i <= imgs@.len(),
            images_view(out@) == gallery_images(imgs@.take(i as int)),
        decreases imgs@.len() - i,
    {
        let im = &imgs[i];
        assert(imgs@.take(i + 1).drop_last() =~= imgs@.take(i as int));
        assert(imgs@.take(i + 1).last() == imgs@[i as int]);
        match &im.url {
            Some(u) => {
                let nsfw = match im.nsfw_level {
                    Some(n) => Some(nsfw_label(n)),
                    None => None,
                };
                let ghost before = images_view(out@);
                out.push(LoraCivitaiImage {
                    url: u.clone(),
                    width: narrow_exec(im.width),
                    height: narrow_exec(im.height),
                    nsfw,
                });
                assert(images_view(out@) =~= before.push(image_view(out@.last())));
            },
            None => {},
        }
        i += 1;
    }
    assert(imgs@.take(imgs@.len() as int) =~= imgs@);
    out
}

/// A copy of a list of texts.
fn clone_strings(v: &Vec<String>) -> (r: Vec<String>)
    ensures
        r.deep_view() == v.deep_view(),
{
    let mut out: Vec<String> = Vec::new();
    let mut i: usize = 0;
    while i < v.len()
        invariant
            i <= v@.len(),
            out@.len() == i,
            forall|j: int| 0 <= j < i ==> (#[trigger] out@[j])@ == v@[j]@,
        decreases v@.len() - i,
    {
        out.push(v[i].clone());
        i += 1;
    }
    assert(out.deep_view() =~= v.deep_view());
    out
}

proof fn lemma_upper_hex(b: Seq<u8>)
    ensures
        upper_hex_of(b).len() == 2 * b.len(),
        forall|i: int| 0 <= i < upper_hex_of(b).len() ==> (#[trigger] upper_hex_of(b)[i] as u32) < 128,
    decreases b.len(),
{
    if b.len() > 0 {
        lemma_upper_hex(b.drop_last());
        let h = b.last() as int;
        assert(0 <= h / 16 < 16 && 0 <= h % 16 < 16);
    }
}

/// The AutoV2 hash of a SHA-256 digest: the first 10 characters of its
/// upper-case hex text.
fn autov2_of_digest(digest: &[u8]) -> (r: String)
    requires
        digest@.len() == 32,
    ensures
        r@ == upper_hex_of(digest@).take(10),
{
    let full = upper_hex_encode(digest);
    proof {
        lemma_upper_hex(digest@);
    }
    crate::media::autov2_hash(full.as_str())
}

/// The LoRA panel: the file name; the AutoV2 hash of the file's SHA-256
/// digest; the ModelSpec title, author, architecture, trigger phrase,
/// description and tags; and, when the CivitAI lookup answered, the version
/// and model ids, base model, model name and description, sample images,
/// trained words and counts (the creator is not shown for a LoRA).
pub fn lora_info(filename: &str, modelspec: &Vec<(String, String)>, digest: &[u8], civitai: Option<&CivitaiVersion>)
    -> (r: LoraCivitaiInfo)
    requires
        digest@.len() == 32,
    ensures
        r.filename@ == filename@,
        r.hash.deep_view() == Some(upper_hex_of(digest@).take(10)),
        r.modelspec_title.deep_view() == modelspec_value(fields_view(modelspec@), "title"@),
        r.modelspec_author.deep_view() == modelspec_value(fields_view(modelspec@), "author"@),
        r.modelspec_architecture.deep_view() == modelspec_value(fields_view(modelspec@), "architecture"@),
        r.modelspec_trigger_phrase.deep_view() == modelspec_value(fields_view(modelspec@), "trigger_phrase"@),
        r.modelspec_description.deep_view() == modelspec_value(fields_view(modelspec@), "description"@),
        r.modelspec_tags.deep_view() == modelspec_value(fields_view(modelspec@), "tags"@),
        r.civitai_creator is None,
        match civitai {
            Some(c) => {
                &&& r.civitai_version_id == c.id
                &&& r.civitai_model_id == c.model_id
                &&& r.civitai_base_model.deep_view() == c.base_model.deep_view()
                &&& r.civitai_name.deep_view() == c.model_name.deep_view()
                &&& r.civitai_description.deep_view() == c.model_description.deep_view()
                &&& images_view(r.civitai_images@) == gallery_images(c.images@)
                &&& r.civitai_trigger_words.deep_view() == c.trained_words.deep_view()
                &&& r.civitai_download_count == c.download_count
                &&& r.civitai_thumbs_up_count == c.thumbs_up_count
            },
            None => {
                &&& r.civitai_version_id is None
                &&& r.civitai_model_id is None
                &&& r.civitai_base_model is None
                &&& r.civitai_name is None
                &&& r.civitai_description is None
                &&& r.civitai_images@.len() == 0
                &&& r.civitai_trigger_words@.len() == 0
                &&& r.civitai_download_count is None
                &&& r.civitai_thumbs_up_count is None
            },
        },
{
    let hash = autov2_of_digest(digest);
    let mut info = LoraCivitaiInfo {
        filename: String::from_str(filename),
        hash: Some(hash),
        civitai_name: None,
        civitai_description: None,
        civitai_model_id: None,
        civitai_version_id: None,
        civitai_base_model: None,
        civitai_images: Vec::new(),
        civitai_trigger_words: Vec::new(),
        civitai_download_count: None,
        civitai_thumbs_up_count: None,
        civitai_creator: None,
        modelspec_title: modelspec_get(modelspec, "title"),
        modelspec_author: modelspec_get(modelspec, "author"),
        modelspec_architecture: modelspec_get(modelspec, "architecture"),
        modelspec_trigger_phrase: modelspec_get(modelspec, "trigger_phrase"),
        modelspec_description: modelspec_get(modelspec, "description"),
        modelspec_tags: modelspec_get(modelspec, "tags"),
    };
    match civitai {
        Some(c) => {
            info.civitai_version_id = c.id;
            info.civitai_base_model = clone_owner(&c.base_model);
            info.civitai_name = clone_owner(&c.model_name);
            info.civitai_model_id = c.model_id;
            info.civitai_trigger_words = clone_strings(&c.trained_words);
            info.civitai_images = gallery(&c.images);
            info.civitai_download_count = c.download_count;
            info.civitai_thumbs_up_count = c.thumbs_up_count;
            info.civitai_description = clone_owner(&c.model_description);
        },
        None => {},
    }
    info
}

/// The first image URL of a gallery, if any.
pub open spec fn first_url(g: Seq<(Seq<char>, Option<u32>, Option<u32>, Option<Seq<char>>)>) -> Option<Seq<char>> {
    if g.len() == 0 { None } else { Some(g[0].0) }
}

/// The checkpoint panel. The file name; the ModelSpec title, author,
/// architecture, description and tags; the AutoV2 hash when the file could
/// be hashed (the CivitAI lookup is made only then). The display name is the
/// ModelSpec title, else CivitAI's model name; the base model is CivitAI's,
/// else the ModelSpec architecture; the thumbnail is the local sidecar's
/// `data:` URL, else the first CivitAI sample image. The ids, description,
/// creator, sample images and counts come from the lookup.
pub fn checkpoint_info(filename: &str, modelspec: &Vec<(String, String)>, sidecar: Option<String>, digest: Option<&[u8]>,
    civitai: Option<&CivitaiVersion>) -> (r: CheckpointCivitaiInfo)
    requires
        digest matches Some(d) ==> d@.len() == 32,
    ensures
        ({
            let ms = fields_view(modelspec@);
            let civ = if digest is Some { civitai } else { None };
            &&& r.filename@ == filename@
            &&& r.hash.deep_view() == match digest {
                Some(d) => Some(upper_hex_of(d@).take(10)),
                None => None,
            }
            &&& r.modelspec_title.deep_view() == modelspec_value(ms, "title"@)
            &&& r.modelspec_author.deep_view() == modelspec_value(ms, "author"@)
            &&& r.modelspec_architecture.deep_view() == modelspec_value(ms, "architecture"@)
            &&& r.modelspec_description.deep_view() == modelspec_value(ms, "description"@)
            &&& r.modelspec_tags.deep_view() == modelspec_value(ms, "tags"@)
            &&& r.display_name.deep_view() == match modelspec_value(ms, "title"@) {
                Some(t) => Some(t),
                None => match civ {
                    Some(c) => c.model_name.deep_view(),
                    None => None,
                },
            }
            &&& r.base_model.deep_view() == match civ {
                Some(c) if c.base_model is Some => c.base_model.deep_view(),
                _ => modelspec_value(ms, "architecture"@),
            }
            &&& r.thumbnail_url.deep_view() == match sidecar {
                Some(s) => Some(s@),
                None => match civ {
                    Some(c) => first_url(gallery_images(c.images@)),
                    None => None,
                },
            }
            &&& match civ {
                Some(c) => {
                    &&& r.civitai_version_id == c.id
                    &&& r.civitai_model_id == c.model_id
                    &&& r.civitai_description.deep_view() == c.model_description.deep_view()
                    &&& r.civitai_creator.deep_view() == c.creator.deep_view()
                    &&& images_view(r.civitai_images@) == gallery_images(c.images@)
                    &&& r.civitai_download_count == c.download_count
                    &&& r.civitai_thumbs_up_count == c.thumbs_up_count
                },
                None => {
                    &&& r.civitai_version_id is None
                    &&& r.civitai_model_id is None
                    &&& r.civitai_description is None
                    &&& r.civitai_creator is None
                    &&& r.civitai_images@.len() == 0
                    &&& r.civitai_download_count is None
                    &&& r.civitai_thumbs_up_count is None
                },
            }
        }),
{
    let mut info = CheckpointCivitaiInfo {
        filename: String::from_str(filename),
        hash: None,
        display_name: modelspec_get(modelspec, "title"),
        base_model: modelspec_get(modelspec, "architecture"),
        thumbnail_url: sidecar,
        civitai_model_id: None,
        civitai_version_id: None,
        civitai_description: None,
        civitai_images: Vec::new(),
        civitai_download_count: None,
        civitai_thumbs_up_count: None,
        civitai_creator: None,
        modelspec_title: modelspec_get(modelspec, "title"),
        modelspec_author: modelspec_get(modelspec, "author"),
        modelspec_architecture: modelspec_get(modelspec, "architecture"),
        modelspec_description: modelspec_get(modelspec, "description"),
        modelspec_tags: modelspec_get(modelspec, "tags"),
    };
    let d = match digest {
        Some(d) => d,
        None => {
            return info;
        },
    };
    info.hash = Some(autov2_of_digest(d));
    let c = match civitai {
        Some(c) => c,
        None => {
            return info;
        },
    };
    info.civitai_version_id = c.id;
    info.civitai_model_id = c.model_id;
    match &c.base_model {
        Some(bm) => {
            info.base_model = Some(bm.clone());
        },
        None => {},
    }
    if info.display_name.is_none() {
        info.display_name = clone_owner(&c.model_name);
    }
    info.civitai_description = clone_owner(&c.model_description);
    info.civitai_creator = clone_owner(&c.creator);
    info.civitai_download_count = c.download_count;
    info.civitai_thumbs_up_count = c.thumbs_up_count;
    info.civitai_images = gallery(&c.images);
    if info.thumbnail_url.is_none() {
        if info.civitai_images.len() > 0 {
            info.thumbnail_url = Some(info.civitai_images[0].url.clone());
        }
    }
    info
}

} // verus!
