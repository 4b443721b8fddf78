//! First-run setup choices: the GPU kind and its VRAM read from what the
//! system tools report, the VRAM mode for it, the PyTorch wheel index for
//! the GPU, and which prebuilt tools are downloaded for the platform.
use vstd::prelude::*;
use crate::text::{
    push_str, contains, str_contains, trim, trim_chars, chars_of, lines, lines_of, parse_u64, parse_u64_chars, words,
    words_of,
};
use crate::process::{blackwell_in, has_blackwell_gpu, to_lowercase, unicode_lowercase};
use crate::strmap::str_eq;

verus! {

/// The VRAM mode recommended for a GPU with `vram_mb` MiB: `high` from
/// 8000, `normal` from 4000, `low` below, and `normal` when unknown (0).
pub open spec fn recommended_vram_mode_of(vram_mb: u64) -> Seq<char> {
    if vram_mb >= 8000 {
        "high"@
    } else if vram_mb >= 4000 {
        "normal"@
    } else if vram_mb > 0 {
        "low"@
    } else {
        "normal"@
    }
}

/// The VRAM mode recommended for a GPU with `vram_mb` MiB.
pub fn recommended_vram_mode(vram_mb: u64) -> (r: &'static str)
    ensures
        r@ == recommended_vram_mode_of(vram_mb),
{
    if vram_mb >= 8000 {
        "high"
    } else if vram_mb >= 4000 {
        "normal"
    } else if vram_mb > 0 {
        "low"
    } else {
        "normal"
    }
}

/// The operating systems and processors the application is built for.
#[derive(PartialEq, Eq, Structural, Clone, Copy)]
pub enum Platform {
    LinuxX64,
    LinuxArm64,
    MacX64,
    MacArm64,
    WindowsX64,
}

/// The latest `uv` release archive for the platform.
pub fn uv_download_url(platform: Platform) -> (r: &'static str)
    ensures
        r@ == match platform {
            Platform::LinuxX64 => "https://github.com/astral-sh/uv/releases/latest/download/uv-x86_64-unknown-linux-gnu.tar.gz"@,
            Platform::LinuxArm64 => "https://github.com/astral-sh/uv/releases/latest/download/uv-aarch64-unknown-linux-gnu.tar.gz"@,
            Platform::MacX64 => "https://github.com/astral-sh/uv/releases/latest/download/uv-x86_64-apple-darwin.tar.gz"@,
            Platform::MacArm64 => "https://github.com/astral-sh/uv/releases/latest/download/uv-aarch64-apple-darwin.tar.gz"@,
            Platform::WindowsX64 => "https://github.com/astral-sh/uv/releases/latest/download/uv-x86_64-pc-windows-msvc.zip"@,
        },
{
    match platform {
        Platform::LinuxX64 => "https://github.com/astral-sh/uv/releases/latest/download/uv-x86_64-unknown-linux-gnu.tar.gz",
        Platform::LinuxArm64 => "https://github.com/astral-sh/uv/releases/latest/download/uv-aarch64-unknown-linux-gnu.tar.gz",
        Platform::MacX64 => "https://github.com/astral-sh/uv/releases/latest/download/uv-x86_64-apple-darwin.tar.gz",
        Platform::MacArm64 => "https://github.com/astral-sh/uv/releases/latest/download/uv-aarch64-apple-darwin.tar.gz",
        Platform::WindowsX64 => "https://github.com/astral-sh/uv/releases/latest/download/uv-x86_64-pc-windows-msvc.zip",
    }
}

/// The ONNX Runtime release used by the tagger.
pub const ORT_VERSION: &'static str = "1.24.2";

/// The ONNX Runtime archive to download (URL, local file name): the Windows
/// zip on Windows, the Linux x64 tarball elsewhere.
pub fn ort_download_info(windows: bool) -> (r: (String, &'static str))
    ensures
        r.0@ == "https://github.com/microsoft/onnxruntime/releases/download/v"@ + ORT_VERSION@ + if windows {
            "/onnxruntime-win-x64-"@ + ORT_VERSION@ + ".zip"@
        } else {
            "/onnxruntime-linux-x64-"@ + ORT_VERSION@ + ".tgz"@
        },
        r.1@ == if windows { "ort_runtime.zip"@ } else { "ort_runtime.tgz"@ },
{
    let mut url = String::from_str("https://github.com/microsoft/onnxruntime/releases/download/v");
    push_str(&mut url, ORT_VERSION);
    if windows {
        push_str(&mut url, "/onnxruntime-win-x64-");
        push_str(&mut url, ORT_VERSION);
        push_str(&mut url, ".zip");
        (url, "ort_runtime.zip")
    } else {
        push_str(&mut url, "/onnxruntime-linux-x64-");
        push_str(&mut url, ORT_VERSION);
        push_str(&mut url, ".tgz");
        (url, "ort_runtime.tgz")
    }
}

// ---------------------------------------------------------------------------
// GPU detection
// ---------------------------------------------------------------------------

/// The PyTorch CUDA wheel index for the `nvidia-smi` compute-capability
/// report (None when it could not be run): CUDA 13.0 for a Blackwell GPU,
/// else CUDA 12.8.
pub fn nvidia_pytorch_index_url(compute_caps: Option<&str>) -> (r: &'static str)
    ensures
        r@ == if compute_caps matches Some(out) && blackwell_in(out@) {
            "https://download.pytorch.org/whl/cu130"@
        } else {
            "https://download.pytorch.org/whl/cu128"@
        },
{
    match compute_caps {
        Some(out) => if has_blackwell_gpu(out) {
            "https://download.pytorch.org/whl/cu130"
        } else {
            "https://download.pytorch.org/whl/cu128"
        },
        None => "https://download.pytorch.org/whl/cu128",
    }
}

/// The GPU kind the names of the Windows video controllers show: `amd` for
/// a discrete Radeon (RX or Pro W), `intel` for an Arc GPU; compared in
/// lowercase.
pub open spec fn windows_gpu_kind_of(names: Seq<char>) -> Option<Seq<char>> {
    let t = unicode_lowercase(names);
    if contains(t, "radeon rx"@) || contains(t, "radeon pro w"@) {
        Some("amd"@)
    } else if contains(t, "intel arc"@) || contains(t, "arc a"@) || contains(t, "arc b"@) {
        Some("intel"@)
    } else {
        None
    }
}

/// The GPU kind named by the Windows video-controller list (see
/// [`windows_gpu_kind_of`]).
pub fn windows_gpu_kind(names: &str) -> (r: Option<&'static str>)
    ensures
        match r {
            Some(k) => windows_gpu_kind_of(names@) == Some(k@),
            None => windows_gpu_kind_of(names@) is None,
        },
{
    let t = to_lowercase(names);
    let t = t.as_str();
    if str_contains(t, "radeon rx") || str_contains(t, "radeon pro w") {
        Some("amd")
    } else if str_contains(t, "intel arc") || str_contains(t, "arc a") || str_contains(t, "arc b") {
        Some("intel")
    } else {
        None
    }
}

/// A DRM card is a discrete Intel GPU: vendor `0x8086` and a display class
/// starting with `0x0300` (both trimmed).
pub open spec fn intel_discrete_of(vendor: Seq<char>, class: Seq<char>) -> bool {
    trim(vendor) == "0x8086"@ && trim(class).len() >= 6 && trim(class).take(6) == "0x0300"@
}

fn trimmed(s: &str) -> (r: String)
    ensures
        r@ == trim(s@),
{
    let cs = chars_of(s);
    assert(cs@.subrange(0, cs@.len() as int) =~= cs@);
    trim_chars(&cs, 0, cs.len())
}

fn starts_with(s: &str, prefix: &str) -> (r: bool)
    ensures
        r == (s@.len() >= prefix@.len() && s@.take(prefix@.len() as int) == prefix@),
{
    let a = chars_of(s);
    let b = chars_of(prefix);
    if a.len() < b.len() {
        return false;
    }
    let mut i: usize = 0;
    while i < b.len()
        invariant
            a@ == s@,
            b@ == prefix@,
            i <= b@.len() <= a@.len(),
            forall|k: int| 0 <= k < i ==> a@[k] == b@[k],
        decreases b@.len() - i,
    {
        if a[i] != b[i] {
            assert(a@.take(b@.len() as int)[i as int] != b@[i as int]);
            return false;
        }
        i += 1;
    }
    assert(a@.take(b@.len() as int) =~= b@);
    true
}

/// Whether a DRM card is a discrete Intel GPU (see [`intel_discrete_of`]).
pub fn is_intel_discrete_card(vendor: &str, class: &str) -> (r: bool)
    ensures
        r == intel_discrete_of(vendor@, class@),
{
    let v = trimmed(vendor);
    let c = trimmed(class);
    proof {
        reveal_strlit("0x0300");
    }
    str_eq(v.as_str(), "0x8086") && starts_with(c.as_str(), "0x0300")
}

/// The largest number among the lines of a tool's report (each line
/// trimmed; lines that are not numbers skipped); None when there is none.
pub open spec fn max_listed_of(ls: Seq<Seq<char>>) -> Option<u64>
    decreases ls.len(),
{
    if ls.len() == 0 {
        None
    } else {
        let rest = max_listed_of(ls.drop_last());
        match parse_u64(trim(ls.last())) {
            None => rest,
            Some(v) => match rest {
                Some(m) => Some(if v > m { v } else { m }),
                None => Some(v),
            },
        }
    }
}

/// The largest number listed one per line (see [`max_listed_of`]); used for
/// the VRAM `nvidia-smi` and the Windows video controllers report.
pub fn max_listed_number(text: &str) -> (r: Option<u64>)
    ensures
        r == max_listed_of(lines(text@)),
{
    let ls = lines_of(text);
    let ghost lv = ls@.map_values(|x: String| x@);
    let mut best: Option<u64> = None;
    let mut i: usize = 0;
    while i < ls.len()
        invariant
            i <= ls@.len(),
            lv == ls@.map_values(|x: String| x@),
            lv == lines(text@),
            best == max_listed_of(lv.take(i as int)),
        decreases ls@.len() - i,
    {
        let cs = chars_of(ls[i].as_str());
        let t = trim_chars(&cs, 0, cs.len());
        assert(cs@.subrange(0, cs@.len() as int) =~= cs@);
        let tc = chars_of(t.as_str());
        let v = parse_u64_chars(&tc, 0, tc.len());
        assert(tc@.subrange(0, tc@.len() as int) =~= tc@);
        assert(lv.take(i + 1).drop_last() =~= lv.take(i as int));
        best = match v {
            None => best,
            Some(x) => match best {
                Some(m) => Some(if x > m { x } else { m }),
                None => Some(x),
            },
        };
        i += 1;
    }
    assert(lv.take(ls@.len() as int) =~= lv);
    best
}

/// The VRAM in MiB that a macOS display report gives: on the first line
/// that starts with `VRAM` or holds `Memory:` (trimmed) and has a word that
/// is a number followed by the unit, that number (times 1024 for GB).
pub open spec fn macos_vram_in_line(line: Seq<char>) -> Option<u64> {
    let t = trim(line);
    if (t.len() >= 4 && t.take(4) == "VRAM"@) || contains(t, "Memory:"@) {
        macos_vram_in_words(words(t), contains(t, "GB"@), contains(t, "MB"@))
    } else {
        None
    }
}

/// The first number word giving a size, in MiB (the GB figure multiplied
/// with 64-bit wrap-around).
pub open spec fn macos_vram_in_words(ws: Seq<Seq<char>>, gb: bool, mb: bool) -> Option<u64>
    decreases ws.len(),
{
    if ws.len() == 0 {
        None
    } else {
        match parse_u64(ws[0]) {
            Some(v) => if gb {
                Some(((v * 1024) % 0x1_0000_0000_0000_0000) as u64)
            } else if mb {
                Some(v)
            } else {
                macos_vram_in_words(ws.drop_first(), gb, mb)
            },
            None => macos_vram_in_words(ws.drop_first(), gb, mb),
        }
    }
}



/// The VRAM of the first line of a macOS display report that gives one.
pub open spec fn macos_vram_of(ls: Seq<Seq<char>>) -> Option<u64>
    decreases ls.len(),
{
    if ls.len() == 0 {
        None
    } else {
        match macos_vram_in_line(ls[0]) {
            Some(v) => Some(v),
            None => macos_vram_of(ls.drop_first()),
        }
    }
}

fn macos_vram_line(line: &str) -> (r: Option<u64>)
    ensures
        r == macos_vram_in_line(line@),
{
    let t = trimmed(line);
    let ts = t.as_str();
    if !(starts_with(ts, "VRAM") || str_contains(ts, "Memory:")) {
        proof {
            reveal_strlit("VRAM");
        }
        return None;
    }
    proof {
        reveal_strlit("VRAM");
    }
    let gb = str_contains(ts, "GB");
    let mb = str_contains(ts, "MB");
    let ws = words_of(ts);
    let ghost wv = ws@.map_values(|x: String| x@);
    assert(wv.skip(0) =~= wv);
    assert(macos_vram_in_line(line@) == macos_vram_in_words(wv, gb, mb));
    let mut i: usize = 0;
    while i < ws.len()
        invariant
            i <= ws@.len(),
            wv == ws@.map_values(|x: String| x@),
            macos_vram_in_line(line@) == macos_vram_in_words(wv.skip(i as int), gb, mb),
        decreases ws@.len() - i,
    {
        let wc = chars_of(ws[i].as_str());
        let v = parse_u64_chars(&wc, 0, wc.len());
        assert(wc@.subrange(0, wc@.len() as int) =~= wc@);
        assert(wv.skip(i as int)[0] == wv[i as int]);
        assert(wv[i as int] == wc@);
        assert(wv.skip(i as int).drop_first() =~= wv.skip(i + 1));
        match v {
            Some(x) => {
                if gb {
                    return Some(x.wrapping_mul(1024));
                } else if mb {
                    return Some(x);
                }
            },
            None => {},
        }
        i += 1;
    }
    assert(wv.skip(i as int) =~= Seq::<Seq<char>>::empty());
    None
}

/// The VRAM in MiB a macOS `system_profiler SPDisplaysDataType` report gives
/// (see [`macos_vram_of`]).
pub fn macos_vram_mb(report: &str) -> (r: Option<u64>)
    ensures
        r == macos_vram_of(lines(report@)),
{
    let ls = lines_of(report);
    let ghost lv = ls@.map_values(|x: String| x@);
    assert(lv.skip(0) =~= lv);
    let mut i: usize = 0;
    while i < ls.len()
        invariant
            i <= ls@.len(),
            lv == ls@.map_values(|x: String| x@),
            lv == lines(report@),
            macos_vram_of(lv) == macos_vram_of(lv.skip(i as int)),
        decreases ls@.len() - i,
    {
        assert(lv.skip(i as int)[0] == lv[i as int]);
        assert(lv.skip(i as int).drop_first() =~= lv.skip(i + 1));
        match macos_vram_line(ls[i].as_str()) {
            Some(v) => return Some(v),
            None => {},
        }
        i += 1;
    }
    assert(lv.skip(i as int) =~= Seq::<Seq<char>>::empty());
    None
}

/// A word of the `rocm-smi` report naming an AMD architecture.
pub open spec fn is_gfx(w: Seq<char>) -> bool {
    w.len() >= 3 && w.take(3) == "gfx"@
}

/// The architectures named in words `ws`, each once, in order of first
/// mention.
pub open spec fn gfx_list(ws: Seq<Seq<char>>) -> Seq<Seq<char>>
    decreases ws.len(),
{
    if ws.len() == 0 {
        Seq::empty()
    } else {
        let acc = gfx_list(ws.drop_last());
        if is_gfx(ws.last()) && !acc.contains(ws.last()) { acc.push(ws.last()) } else { acc }
    }
}

/// The AMD architectures the `rocm-smi --showproductname` report names
/// (lowercased; see [`gfx_list`]).
pub fn gfx_candidates(report: &str) -> (r: Vec<String>)
    ensures
        r@.map_values(|x: String| x@) == gfx_list(words(unicode_lowercase(report@))),
{
    let lower = to_lowercase(report);
    let ws = words_of(lower.as_str());
    let ghost wv = ws@.map_values(|x: String| x@);
    let mut out: Vec<String> = Vec::new();
    let mut i: usize = 0;
    while i < ws.len()
        invariant
            i <= ws@.len(),
            wv == ws@.map_values(|x: String| x@),
            wv == words(unicode_lowercase(report@)),
            out@.map_values(|x: String| x@) == gfx_list(wv.take(i as int)),
        decreases ws@.len() - i,
    {
        let w = ws[i].as_str();
        proof {
            reveal_strlit("gfx");
            assert(wv.take(i + 1).drop_last() =~= wv.take(i as int));
            assert(wv.take(i + 1).last() == wv[i as int]);
        }
        if starts_with(w, "gfx") {
            let ghost acc = out@.map_values(|x: String| x@);
            let mut seen = false;
            let mut j: usize = 0;
            while j < out.len()
                invariant
                    j <= out@.len(),
                    acc == out@.map_values(|x: String| x@),
                    seen == exists|k: int| 0 <= k < j && acc[k] == w@,
                decreases out@.len() - j,
            {
                assert(acc[j as int] == out@[j as int]@);
                if str_eq(out[j].as_str(), w) {
                    seen = true;
                }
                proof {
                    if !seen {
                        assert forall|k: int| 0 <= k < j + 1 implies acc[k] != w@ by {
                            if k < j {
                                assert(!(0 <= k < j && acc[k] == w@));
                            }
                        }
                    }
                }
                j += 1;
            }
            proof {
                if acc.contains(w@) {
                    let k = choose|k: int| 0 <= k < acc.len() && acc[k] == w@;
                }
            }
            if !seen {
                out.push(ws[i].clone());
                assert(out@.map_values(|x: String| x@) =~= acc.push(w@));
            }
        }
        i += 1;
    }
    assert(wv.take(ws@.len() as int) =~= wv);
    out
}

/// The architecture a DRM card's sysfs files show, given its vendor and,
/// when they could be read, its graphics-core major version and device id:
/// none but for AMD (vendor holds `0x1002`); RDNA 4 `gfx1200` for core 12;
/// `gfx1201` for a device id starting with `0x75`.
pub open spec fn sysfs_card_arch_of(vendor: Seq<char>, gc_major: Option<Seq<char>>, device_id: Option<Seq<char>>) -> Option<
    Seq<char>,
> {
    if !contains(trim(vendor), "0x1002"@) {
        None
    } else if gc_major matches Some(m) && trim(m) == "12"@ {
        Some("gfx1200"@)
    } else if device_id matches Some(d) && {
        let l = trim(unicode_lowercase(d));
        l.len() >= 4 && l.take(4) == "0x75"@
    } {
        Some("gfx1201"@)
    } else {
        None
    }
}

/// The AMD architecture of one DRM card (see [`sysfs_card_arch_of`]).
pub fn sysfs_card_arch(vendor: &str, gc_major: Option<&str>, device_id: Option<&str>) -> (r: Option<&'static str>)
    ensures
        match r {
            Some(a) => sysfs_card_arch_of(vendor@, match gc_major { Some(m) => Some(m@), None => None }, match device_id {
                Some(d) => Some(d@),
                None => None,
            }) == Some(a@),
            None => sysfs_card_arch_of(vendor@, match gc_major { Some(m) => Some(m@), None => None }, match device_id {
                Some(d) => Some(d@),
                None => None,
            }) is None,
        },
{
    let v = trimmed(vendor);
    if !str_contains(v.as_str(), "0x1002") {
        return None;
    }
    match gc_major {
        Some(m) => {
            let t = trimmed(m);
            if str_eq(t.as_str(), "12") {
                return Some("gfx1200");
            }
        },
        None => {},
    }
    match device_id {
        Some(d) => {
            let l = to_lowercase(d);
            let t = trimmed(l.as_str());
            proof {
                reveal_strlit("0x75");
            }
            if starts_with(t.as_str(), "0x75") {
                return Some("gfx1201");
            }
            None
        },
        None => None,
    }
}

/// The architecture to install PyTorch for among those found: the first
/// RDNA 4 one (`gfx120` prefix), else the first.
pub open spec fn preferred_amd_arch_of(cands: Seq<Seq<char>>) -> Option<Seq<char>> {
    if exists|i: int| 0 <= i < cands.len() && #[trigger] is_rdna4(cands[i]) {
        Some(cands[choose_first_rdna4(cands)])
    } else if cands.len() > 0 {
        Some(cands[0])
    } else {
        None
    }
}

/// An RDNA 4 architecture name.
pub open spec fn is_rdna4(a: Seq<char>) -> bool {
    a.len() >= 6 && a.take(6) == "gfx120"@
}

/// The index of the first RDNA 4 name.
pub open spec fn choose_first_rdna4(cands: Seq<Seq<char>>) -> int {
    choose|i: int| 0 <= i < cands.len() && is_rdna4(cands[i]) && forall|j: int| 0 <= j < i ==> !#[trigger] is_rdna4(
        cands[j],
    )
}

/// The architecture to install PyTorch for (see [`preferred_amd_arch_of`]).
pub fn preferred_amd_arch(candidates: &Vec<String>) -> (r: Option<String>)
    ensures
        match r {
            Some(a) => preferred_amd_arch_of(candidates@.map_values(|x: String| x@)) == Some(a@),
            None => preferred_amd_arch_of(candidates@.map_values(|x: String| x@)) is None,
        },
{
    let ghost cv = candidates@.map_values(|x: String| x@);
    let mut i: usize = 0;
    while i < candidates.len()
        invariant
            i <= candidates@.len(),
            cv == candidates@.map_values(|x: String| x@),
            forall|j: int| 0 <= j < i ==> !#[trigger] is_rdna4(cv[j]),
        decreases candidates@.len() - i,
    {
        proof {
            reveal_strlit("gfx120");
        }
        if starts_with(candidates[i].as_str(), "gfx120") {
            proof {
                assert(is_rdna4(cv[i as int]));
                let k = choose_first_rdna4(cv);
                assert(0 <= i < cv.len() && is_rdna4(cv[i as int]) && forall|j: int| 0 <= j < i ==> !#[trigger] is_rdna4(cv[j]));
                if k < i {
                    assert(!is_rdna4(cv[k]));
                } else if k > i {
                    assert(!is_rdna4(cv[i as int]));
                }
            }
            return Some(candidates[i].clone());
        }
        i += 1;
    }
    if candidates.len() > 0 {
        Some(candidates[0].clone())
    } else {
        None
    }
}

/// The PyTorch ROCm wheel index for the AMD architecture found (if any):
/// the nightly gfx120X index for RDNA 4, else stable ROCm 6.2.
pub fn amd_pytorch_index_url(arch: Option<&str>) -> (r: &'static str)
    ensures
        r@ == if arch matches Some(a) && is_rdna4(a@) {
            "https://rocm.nightlies.amd.com/v2/gfx120X-all/"@
        } else {
            "https://download.pytorch.org/whl/rocm6.2"@
        },
{
    proof {
        reveal_strlit("gfx120");
    }
    match arch {
        Some(a) => if starts_with(a, "gfx120") {
            "https://rocm.nightlies.amd.com/v2/gfx120X-all/"
        } else {
            "https://download.pytorch.org/whl/rocm6.2"
        },
        None => "https://download.pytorch.org/whl/rocm6.2",
    }
}


/// The PyTorch wheel index for a GPU kind, given what `nvidia-smi` reported
/// of the compute capabilities and the AMD architecture found: the CUDA
/// index for `nvidia`, the ROCm index for `amd`, XPU for `intel`, none
/// (empty) for `mps`, else the CPU index.
pub fn pytorch_index_for(gpu: &str, compute_caps: Option<&str>, amd_arch: Option<&str>) -> (r: &'static str)
    ensures
        r@ == if gpu@ == "nvidia"@ {
            if compute_caps matches Some(out) && blackwell_in(out@) {
                "https://download.pytorch.org/whl/cu130"@
            } else {
                "https://download.pytorch.org/whl/cu128"@
            }
        } else if gpu@ == "amd"@ {
            if amd_arch matches Some(a) && is_rdna4(a@) {
                "https://rocm.nightlies.amd.com/v2/gfx120X-all/"@
            } else {
                "https://download.pytorch.org/whl/rocm6.2"@
            }
        } else if gpu@ == "intel"@ {
            "https://download.pytorch.org/whl/xpu"@
        } else if gpu@ == "mps"@ {
            ""@
        } else {
            "https://download.pytorch.org/whl/cpu"@
        },
{
    if str_eq(gpu, "nvidia") {
        nvidia_pytorch_index_url(compute_caps)
    } else if str_eq(gpu, "amd") {
        amd_pytorch_index_url(amd_arch)
    } else if str_eq(gpu, "intel") {
        "https://download.pytorch.org/whl/xpu"
    } else if str_eq(gpu, "mps") {
        ""
    } else {
        "https://download.pytorch.org/whl/cpu"
    }
}

} // verus!
