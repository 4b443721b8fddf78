//! The legacy A1111 `parameters` text: prompt lines, a `Negative prompt: `
//! section, and a settings line of `Key: value` pairs separated by `, `.
use vstd::prelude::*;
use crate::text::{
    lines, lines_of, chars_of, string_of, occurs_at, occurs_at_exec, find, find_chars, lemma_find_from, split_on,
    split_on_chars, push_str,
};
use crate::nodes::{join, join_strings};
use crate::strmap::{StrMap, str_eq};
use crate::auth::lower;
use crate::swarm::named_param;

verus! {

/// `s` with every leading copy of the non-empty `p` removed
/// (`str::trim_start_matches`).
pub open spec fn strip_leading(s: Seq<char>, p: Seq<char>) -> Seq<char>
    decreases s.len(),
{
    if p.len() > 0 && occurs_at(s, p, 0) {
        strip_leading(s.skip(p.len() as int), p)
    } else {
        s
    }
}

/// A line that starts the settings.
pub open spec fn settings_start(line: Seq<char>) -> bool {
    occurs_at(line, "Steps:"@, 0) || occurs_at(line, "Sampler:"@, 0) || occurs_at(line, "CFG"@, 0)
}

/// The scan of the lines so far: positive lines, negative lines, the
/// settings line, and whether the negative section is open.
pub type ScanState = (Seq<Seq<char>>, Seq<Seq<char>>, Option<Seq<char>>, bool);

/// The scan after one more line. A `Negative prompt: ` line opens the
/// negative section; before it, lines are positive until a settings line;
/// inside it, lines are negative until a settings line closes it; lines after
/// the settings line outside the section are dropped.
pub open spec fn scan_step(st: ScanState, line: Seq<char>) -> ScanState {
    let (pos, neg, set, in_neg) = st;
    if occurs_at(line, "Negative prompt: "@, 0) {
        (pos, neg.push(strip_leading(line, "Negative prompt: "@)), set, true)
    } else if !in_neg && set is None {
        if settings_start(line) {
            (pos, neg, Some(line), in_neg)
        } else {
            (pos.push(line), neg, set, in_neg)
        }
    } else if in_neg {
        if settings_start(line) {
            (pos, neg, Some(line), false)
        } else {
            (pos, neg.push(line), set, in_neg)
        }
    } else {
        st
    }
}

/// The scan of the first `k` lines.
pub open spec fn scan_lines(ls: Seq<Seq<char>>, k: int) -> ScanState
    decreases k,
{
    if k <= 0 || k > ls.len() {
        (Seq::empty(), Seq::empty(), None, false)
    } else {
        scan_step(scan_lines(ls, k - 1), ls[k - 1])
    }
}

/// The parameter name a settings key is stored under.
pub open spec fn normalized_key(key: Seq<char>) -> Seq<char> {
    if key == "Steps"@ {
        "steps"@
    } else if key == "Sampler"@ {
        "sampler"@
    } else if key == "Scheduler"@ {
        "scheduler"@
    } else if key == "CFG scale"@ {
        "cfg"@
    } else if key == "Seed"@ {
        "seed"@
    } else if key == "Size"@ {
        "size"@
    } else if key == "Model"@ {
        "model"@
    } else if key == "VAE"@ {
        "vae"@
    } else if key == "Denoising strength"@ {
        "denoise"@
    } else if key == "Generation mode"@ {
        "mode"@
    } else if key == "LoRAs"@ {
        "loras"@
    } else if key == "Upscale model"@ {
        "upscale_model"@
    } else if key == "Upscale scale"@ {
        "upscale_scale"@
    } else if key == "Upscale denoise"@ {
        "upscale_denoise"@
    } else {
        key
    }
}

/// The parameter name a settings key is stored under.
fn normalize_key(key: &str) -> (r: String)
    ensures
        r@ == normalized_key(key@),
{
    let k = if str_eq(key, "Steps") {
        "steps"
    } else if str_eq(key, "Sampler") {
        "sampler"
    } else if str_eq(key, "Scheduler") {
        "scheduler"
    } else if str_eq(key, "CFG scale") {
        "cfg"
    } else if str_eq(key, "Seed") {
        "seed"
    } else if str_eq(key, "Size") {
        "size"
    } else if str_eq(key, "Model") {
        "model"
    } else if str_eq(key, "VAE") {
        "vae"
    } else if str_eq(key, "Denoising strength") {
        "denoise"
    } else if str_eq(key, "Generation mode") {
        "mode"
    } else if str_eq(key, "LoRAs") {
        "loras"
    } else if str_eq(key, "Upscale model") {
        "upscale_model"
    } else if str_eq(key, "Upscale scale") {
        "upscale_scale"
    } else if str_eq(key, "Upscale denoise") {
        "upscale_denoise"
    } else {
        key
    };
    String::from_str(k)
}

/// Store one setting under its normalized name.
pub fn store_setting(params: &mut StrMap<String>, key: &str, value: &str)
    requires
        old(params).wf(),
    ensures
        final(params).wf(),
        final(params).view() == old(params).view().insert(normalized_key(key@), value@),
{
    let k = normalize_key(key);
    params.insert(k, String::from_str(value));
}

/// The settings fold so far: current key, current value, parameters.
pub type SettingsState = (Seq<char>, Seq<char>, Map<Seq<char>, Seq<char>>);

/// The fold after one more `, `-separated piece: a piece with `: ` stores
/// the pending setting and starts a new one; a piece without continues the
/// pending value (a value may itself hold `, `).
pub open spec fn settings_step(st: SettingsState, part: Seq<char>) -> SettingsState {
    let (key, value, m) = st;
    match find(part, ": "@) {
        Some(c) => {
            let m2 = if key.len() > 0 { m.insert(normalized_key(key), value) } else { m };
            (part.take(c), part.skip(c + 2), m2)
        },
        None => if key.len() > 0 {
            (key, value + ", "@ + part, m)
        } else {
            st
        },
    }
}

/// The fold over the first `k` pieces, starting from the parameters `m0`.
pub open spec fn settings_fold(parts: Seq<Seq<char>>, m0: Map<Seq<char>, Seq<char>>, k: int) -> SettingsState
    decreases k,
{
    if k <= 0 || k > parts.len() {
        (Seq::empty(), Seq::empty(), m0)
    } else {
        settings_step(settings_fold(parts, m0, k - 1), parts[k - 1])
    }
}

/// The parameters `m0` with the settings of the line added.
pub open spec fn settings_params(settings: Seq<char>, m0: Map<Seq<char>, Seq<char>>) -> Map<Seq<char>, Seq<char>> {
    let parts = split_on(settings, ", "@);
    let st = settings_fold(parts, m0, parts.len() as int);
    if st.0.len() > 0 {
        st.2.insert(normalized_key(st.0), st.1)
    } else {
        st.2
    }
}

/// The parameters read from an A1111 text: none for an empty text; else
/// `positive_prompt` (the positive lines joined by newlines),
/// `negative_prompt` when there are negative lines, and the settings.
pub open spec fn a1111_params(text: Seq<char>) -> Map<Seq<char>, Seq<char>> {
    let ls = lines(text);
    if ls.len() == 0 {
        Map::empty()
    } else {
        let st = scan_lines(ls, ls.len() as int);
        let m0 = Map::<Seq<char>, Seq<char>>::empty().insert("positive_prompt"@, join(st.0, "\n"@));
        let m1 = if st.1.len() > 0 { m0.insert("negative_prompt"@, join(st.1, "\n"@)) } else { m0 };
        match st.2 {
            Some(s) => settings_params(s, m1),
            None => m1,
        }
    }
}

/// Whether the characters start with the text.
fn starts_with_str(cs: &Vec<char>, prefix: &str) -> (r: bool)
    ensures
        r == occurs_at(cs@, prefix@, 0),
{
    let p = chars_of(prefix);
    if p.len() > cs.len() {
        return false;
    }
    occurs_at_exec(cs, &p, 0)
}

/// `cs` with every leading copy of `prefix` removed.
fn strip_leading_exec(cs: &Vec<char>, prefix: &str) -> (r: String)
    requires
        prefix@.len() > 0,
    ensures
        r@ == strip_leading(cs@, prefix@),
{
    let p = chars_of(prefix);
    let n = cs.len();
    let mut i: usize = 0;
    assert(cs@.skip(0) =~= cs@);
    while p.len() <= n - i && occurs_at_exec(cs, &p, i)
        invariant
            n == cs@.len(),
            p@ == prefix@,
            p@.len() > 0,
            i <= n,
            strip_leading(cs@, p@) == strip_leading(cs@.skip(i as int), p@),
        decreases n - i,
    {
        proof {
            let t = cs@.skip(i as int);
            assert(t.subrange(0, p@.len() as int) =~= cs@.subrange(i as int, i + p@.len()));
            assert(t.skip(p@.len() as int) =~= cs@.skip(i + p@.len()));
        }
        i = i + p.len();
    }
    proof {
        let t = cs@.skip(i as int);
        if occurs_at(t, p@, 0) {
            assert(t.subrange(0, p@.len() as int) =~= cs@.subrange(i as int, i + p@.len()));
        }
    }
    let r = string_of(cs, i, n);
    assert(cs@.subrange(i as int, n as int) =~= cs@.skip(i as int));
    r
}

/// Whether the line starts the settings.
fn is_settings_start(cs: &Vec<char>) -> (r: bool)
    ensures
        r == settings_start(cs@),
{
    starts_with_str(cs, "Steps:") || starts_with_str(cs, "Sampler:") || starts_with_str(cs, "CFG")
}

/// Parse the legacy A1111 `parameters` text (see [`a1111_params`]).
pub fn parse_a1111_params(text: &str) -> (r: StrMap<String>)
    ensures
        r.wf(),
        r.view() == a1111_params(text@),
{
    proof {
        reveal_strlit("Negative prompt: ");
        reveal_strlit(", ");
        reveal_strlit(": ");
    }
    let mut params: StrMap<String> = StrMap::new();
    let ls = lines_of(text);
    let ghost lv = ls@.map_values(|x: String| x@);
    if ls.len() == 0 {
        return params;
    }
    let mut pos: Vec<String> = Vec::new();
    let mut neg: Vec<String> = Vec::new();
    let mut settings: Option<String> = None;
    let mut in_neg = false;
    let mut i: usize = 0;
    while i < ls.len()
        invariant
            i <= ls@.len(),
            lv == ls@.map_values(|x: String| x@),
            "Negative prompt: "@.len() > 0,
            (pos@.map_values(|x: String| x@), neg@.map_values(|x: String| x@), match settings {
                Some(s) => Some(s@),
                None => None,
            }, in_neg) == scan_lines(lv, i as int),
        decreases ls@.len() - i,
    {
        let ghost pv = pos@.map_values(|x: String| x@);
        let ghost nv = neg@.map_values(|x: String| x@);
        let line = ls[i].as_str();
        let lc = chars_of(line);
        assert(lv[i as int] == line@);
        if starts_with_str(&lc, "Negative prompt: ") {
            in_neg = true;
            neg.push(strip_leading_exec(&lc, "Negative prompt: "));
            assert(neg@.map_values(|x: String| x@) =~= nv.push(strip_leading(line@, "Negative prompt: "@)));
        } else if !in_neg && settings.is_none() {
            if is_settings_start(&lc) {
                settings = Some(String::from_str(line));
            } else {
                pos.push(String::from_str(line));
                assert(pos@.map_values(|x: String| x@) =~= pv.push(line@));
            }
        } else if in_neg {
            if is_settings_start(&lc) {
                settings = Some(String::from_str(line));
                in_neg = false;
            } else {
                neg.push(String::from_str(line));
                assert(neg@.map_values(|x: String| x@) =~= nv.push(line@));
            }
        }
        i += 1;
    }
    assert(ls@.len() == lv.len());
    let ghost st = scan_lines(lv, lv.len() as int);
    params.insert(String::from_str("positive_prompt"), join_strings(&pos, "\n"));
    if neg.len() > 0 {
        params.insert(String::from_str("negative_prompt"), join_strings(&neg, "\n"));
    }
    let ghost m1 = params.view();
    match settings {
        None => {},
        Some(s) => {
            let sc = chars_of(s.as_str());
            let sep: Vec<char> = vec![',', ' '];
            assert(sep@ =~= ", "@);
            let parts = split_on_chars(&sc, &sep);
            let ghost pts = parts@.map_values(|x: String| x@);
            let colon: Vec<char> = vec![':', ' '];
            assert(colon@ =~= ": "@);
            let mut key = String::new();
            let mut value = String::new();
            let mut j: usize = 0;
            while j < parts.len()
                invariant
                    j <= parts@.len(),
                    pts == parts@.map_values(|x: String| x@),
                    colon@ == ": "@,
                    ": "@.len() == 2,
                    params.wf(),
                    (key@, value@, params.view()) == settings_fold(pts, m1, j as int),
                decreases parts@.len() - j,
            {
                let part = parts[j].as_str();
                let pc = chars_of(part);
                assert(pts[j as int] == part@);
                proof {
                    lemma_find_from(pc@, ": "@, 0);
                }
                match find_chars(&pc, &colon, 0) {
                    Some(c) => {
                        if key.unicode_len() > 0 {
                            store_setting(&mut params, key.as_str(), value.as_str());
                        }
                        assert(occurs_at(pc@, ": "@, c as int));
                        let pl = pc.len();
                        assert(c + 2 <= pl);
                        key = string_of(&pc, 0, c);
                        value = string_of(&pc, c + 2, pl);
                        assert(key@ =~= part@.take(c as int));
                        assert(value@ =~= part@.skip(c + 2));
                    },
                    None => {
                        if key.unicode_len() > 0 {
                            push_str(&mut value, ", ");
                            push_str(&mut value, part);
                        }
                    },
                }
                j += 1;
            }
            if key.unicode_len() > 0 {
                store_setting(&mut params, key.as_str(), value.as_str());
            }
        },
    }
    params
}

proof fn lemma_setting_0()
    ensures
        normalized_key("Steps"@) == "steps"@,
{
    reveal_strlit("Steps");
    reveal_strlit("steps");
}

proof fn lemma_setting_1()
    ensures
        normalized_key("Sampler"@) == "sampler"@,
{
    reveal_strlit("Sampler");
    reveal_strlit("sampler");
    reveal_strlit("Steps");
    assert("Sampler"@[1] != "Steps"@[1]);
}

proof fn lemma_setting_2()
    ensures
        normalized_key("Scheduler"@) == "scheduler"@,
{
    reveal_strlit("Scheduler");
    reveal_strlit("scheduler");
    reveal_strlit("Steps");
    reveal_strlit("Sampler");
    assert("Scheduler"@[1] != "Steps"@[1]);
    assert("Scheduler"@[1] != "Sampler"@[1]);
}

proof fn lemma_setting_3()
    ensures
        normalized_key("CFG scale"@) == "cfg"@,
{
    reveal_strlit("CFG scale");
    reveal_strlit("cfg");
    reveal_strlit("Steps");
    reveal_strlit("Sampler");
    reveal_strlit("Scheduler");
    assert("CFG scale"@[0] != "Steps"@[0]);
    assert("CFG scale"@[0] != "Sampler"@[0]);
    assert("CFG scale"@[0] != "Scheduler"@[0]);
}

proof fn lemma_setting_4()
    ensures
        normalized_key("Seed"@) == "seed"@,
{
    reveal_strlit("Seed");
    reveal_strlit("seed");
    reveal_strlit("Steps");
    reveal_strlit("Sampler");
    reveal_strlit("Scheduler");
    reveal_strlit("CFG scale");
    assert("Seed"@[1] != "Steps"@[1]);
    assert("Seed"@[1] != "Sampler"@[1]);
    assert("Seed"@[1] != "Scheduler"@[1]);
    assert("Seed"@[0] != "CFG scale"@[0]);
}

proof fn lemma_setting_5()
    ensures
        normalized_key("Size"@) == "size"@,
{
    reveal_strlit("Size");
    reveal_strlit("size");
    reveal_strlit("Steps");
    reveal_strlit("Sampler");
    reveal_strlit("Scheduler");
    reveal_strlit("CFG scale");
    reveal_strlit("Seed");
    assert("Size"@[1] != "Steps"@[1]);
    assert("Size"@[1] != "Sampler"@[1]);
    assert("Size"@[1] != "Scheduler"@[1]);
    assert("Size"@[0] != "CFG scale"@[0]);
    assert("Size"@[1] != "Seed"@[1]);
}

proof fn lemma_setting_6()
    ensures
        normalized_key("Model"@) == "model"@,
{
    reveal_strlit("Model");
    reveal_strlit("model");
    reveal_strlit("Steps");
    reveal_strlit("Sampler");
    reveal_strlit("Scheduler");
    reveal_strlit("CFG scale");
    reveal_strlit("Seed");
    reveal_strlit("Size");
    assert("Model"@[0] != "Steps"@[0]);
    assert("Model"@[0] != "Sampler"@[0]);
    assert("Model"@[0] != "Scheduler"@[0]);
    assert("Model"@[0] != "CFG scale"@[0]);
    assert("Model"@[0] != "Seed"@[0]);
    assert("Model"@[0] != "Size"@[0]);
}

proof fn lemma_setting_7()
    ensures
        normalized_key("VAE"@) == "vae"@,
{
    reveal_strlit("VAE");
    reveal_strlit("vae");
    reveal_strlit("Steps");
    reveal_strlit("Sampler");
    reveal_strlit("Scheduler");
    reveal_strlit("CFG scale");
    reveal_strlit("Seed");
    reveal_strlit("Size");
    reveal_strlit("Model");
    assert("VAE"@[0] != "Steps"@[0]);
    assert("VAE"@[0] != "Sampler"@[0]);
    assert("VAE"@[0] != "Scheduler"@[0]);
    assert("VAE"@[0] != "CFG scale"@[0]);
    assert("VAE"@[0] != "Seed"@[0]);
    assert("VAE"@[0] != "Size"@[0]);
    assert("VAE"@[0] != "Model"@[0]);
}

proof fn lemma_setting_8()
    ensures
        normalized_key("Denoising strength"@) == "denoise"@,
{
    reveal_strlit("Denoising strength");
    reveal_strlit("denoise");
    reveal_strlit("Steps");
    reveal_strlit("Sampler");
    reveal_strlit("Scheduler");
    reveal_strlit("CFG scale");
    reveal_strlit("Seed");
    reveal_strlit("Size");
    reveal_strlit("Model");
    reveal_strlit("VAE");
    assert("Denoising strength"@[0] != "Steps"@[0]);
    assert("Denoising strength"@[0] != "Sampler"@[0]);
    assert("Denoising strength"@[0] != "Scheduler"@[0]);
    assert("Denoising strength"@[0] != "CFG scale"@[0]);
    assert("Denoising strength"@[0] != "Seed"@[0]);
    assert("Denoising strength"@[0] != "Size"@[0]);
    assert("Denoising strength"@[0] != "Model"@[0]);
    assert("Denoising strength"@[0] != "VAE"@[0]);
}

proof fn lemma_setting_9()
    ensures
        normalized_key("Generation mode"@) == "mode"@,
{
    reveal_strlit("Generation mode");
    reveal_strlit("mode");
    reveal_strlit("Steps");
    reveal_strlit("Sampler");
    reveal_strlit("Scheduler");
    reveal_strlit("CFG scale");
    reveal_strlit("Seed");
    reveal_strlit("Size");
    reveal_strlit("Model");
    reveal_strlit("VAE");
    reveal_strlit("Denoising strength");
    assert("Generation mode"@[0] != "Steps"@[0]);
    assert("Generation mode"@[0] != "Sampler"@[0]);
    assert("Generation mode"@[0] != "Scheduler"@[0]);
    assert("Generation mode"@[0] != "CFG scale"@[0]);
    assert("Generation mode"@[0] != "Seed"@[0]);
    assert("Generation mode"@[0] != "Size"@[0]);
    assert("Generation mode"@[0] != "Model"@[0]);
    assert("Generation mode"@[0] != "VAE"@[0]);
    assert("Generation mode"@[0] != "Denoising strength"@[0]);
}

proof fn lemma_setting_10()
    ensures
        normalized_key("LoRAs"@) == "loras"@,
{
    reveal_strlit("LoRAs");
    reveal_strlit("loras");
    reveal_strlit("Steps");
    reveal_strlit("Sampler");
    reveal_strlit("Scheduler");
    reveal_strlit("CFG scale");
    reveal_strlit("Seed");
    reveal_strlit("Size");
    reveal_strlit("Model");
    reveal_strlit("VAE");
    reveal_strlit("Denoising strength");
    reveal_strlit("Generation mode");
    assert("LoRAs"@[0] != "Steps"@[0]);
    assert("LoRAs"@[0] != "Sampler"@[0]);
    assert("LoRAs"@[0] != "Scheduler"@[0]);
    assert("LoRAs"@[0] != "CFG scale"@[0]);
    assert("LoRAs"@[0] != "Seed"@[0]);
    assert("LoRAs"@[0] != "Size"@[0]);
    assert("LoRAs"@[0] != "Model"@[0]);
    assert("LoRAs"@[0] != "VAE"@[0]);
    assert("LoRAs"@[0] != "Denoising strength"@[0]);
    assert("LoRAs"@[0] != "Generation mode"@[0]);
}

proof fn lemma_setting_11()
    ensures
        normalized_key("Upscale model"@) == "upscale_model"@,
{
    reveal_strlit("Upscale model");
    reveal_strlit("upscale_model");
    reveal_strlit("Steps");
    reveal_strlit("Sampler");
    reveal_strlit("Scheduler");
    reveal_strlit("CFG scale");
    reveal_strlit("Seed");
    reveal_strlit("Size");
    reveal_strlit("Model");
    reveal_strlit("VAE");
    reveal_strlit("Denoising strength");
    reveal_strlit("Generation mode");
    reveal_strlit("LoRAs");
    assert("Upscale model"@[0] != "Steps"@[0]);
    assert("Upscale model"@[0] != "Sampler"@[0]);
    assert("Upscale model"@[0] != "Scheduler"@[0]);
    assert("Upscale model"@[0] != "CFG scale"@[0]);
    assert("Upscale model"@[0] != "Seed"@[0]);
    assert("Upscale model"@[0] != "Size"@[0]);
    assert("Upscale model"@[0] != "Model"@[0]);
    assert("Upscale model"@[0] != "VAE"@[0]);
    assert("Upscale model"@[0] != "Denoising strength"@[0]);
    assert("Upscale model"@[0] != "Generation mode"@[0]);
    assert("Upscale model"@[0] != "LoRAs"@[0]);
}

proof fn lemma_setting_12()
    ensures
        normalized_key("Upscale scale"@) == "upscale_scale"@,
{
    reveal_strlit("Upscale scale");
    reveal_strlit("upscale_scale");
    reveal_strlit("Steps");
    reveal_strlit("Sampler");
    reveal_strlit("Scheduler");
    reveal_strlit("CFG scale");
    reveal_strlit("Seed");
    reveal_strlit("Size");
    reveal_strlit("Model");
    reveal_strlit("VAE");
    reveal_strlit("Denoising strength");
    reveal_strlit("Generation mode");
    reveal_strlit("LoRAs");
    reveal_strlit("Upscale model");
    assert("Upscale scale"@[0] != "Steps"@[0]);
    assert("Upscale scale"@[0] != "Sampler"@[0]);
    assert("Upscale scale"@[0] != "Scheduler"@[0]);
    assert("Upscale scale"@[0] != "CFG scale"@[0]);
    assert("Upscale scale"@[0] != "Seed"@[0]);
    assert("Upscale scale"@[0] != "Size"@[0]);
    assert("Upscale scale"@[0] != "Model"@[0]);
    assert("Upscale scale"@[0] != "VAE"@[0]);
    assert("Upscale scale"@[0] != "Denoising strength"@[0]);
    assert("Upscale scale"@[0] != "Generation mode"@[0]);
    assert("Upscale scale"@[0] != "LoRAs"@[0]);
    assert("Upscale scale"@[8] != "Upscale model"@[8]);
}

proof fn lemma_setting_13()
    ensures
        normalized_key("Upscale denoise"@) == "upscale_denoise"@,
{
    reveal_strlit("Upscale denoise");
    reveal_strlit("upscale_denoise");
    reveal_strlit("Steps");
    reveal_strlit("Sampler");
    reveal_strlit("Scheduler");
    reveal_strlit("CFG scale");
    reveal_strlit("Seed");
    reveal_strlit("Size");
    reveal_strlit("Model");
    reveal_strlit("VAE");
    reveal_strlit("Denoising strength");
    reveal_strlit("Generation mode");
    reveal_strlit("LoRAs");
    reveal_strlit("Upscale model");
    reveal_strlit("Upscale scale");
    assert("Upscale denoise"@[0] != "Steps"@[0]);
    assert("Upscale denoise"@[0] != "Sampler"@[0]);
    assert("Upscale denoise"@[0] != "Scheduler"@[0]);
    assert("Upscale denoise"@[0] != "CFG scale"@[0]);
    assert("Upscale denoise"@[0] != "Seed"@[0]);
    assert("Upscale denoise"@[0] != "Size"@[0]);
    assert("Upscale denoise"@[0] != "Model"@[0]);
    assert("Upscale denoise"@[0] != "VAE"@[0]);
    assert("Upscale denoise"@[0] != "Denoising strength"@[0]);
    assert("Upscale denoise"@[0] != "Generation mode"@[0]);
    assert("Upscale denoise"@[0] != "LoRAs"@[0]);
    assert("Upscale denoise"@[8] != "Upscale model"@[8]);
    assert("Upscale denoise"@[8] != "Upscale scale"@[8]);
}

/// The parameter names of the named settings are pairwise different.
proof fn lemma_setting_names_distinct()
    ensures
        "steps"@ != "sampler"@,
        "steps"@ != "scheduler"@,
        "steps"@ != "cfg"@,
        "steps"@ != "seed"@,
        "steps"@ != "size"@,
        "steps"@ != "model"@,
        "steps"@ != "vae"@,
        "steps"@ != "denoise"@,
        "steps"@ != "mode"@,
        "steps"@ != "loras"@,
        "steps"@ != "upscale_model"@,
        "steps"@ != "upscale_scale"@,
        "steps"@ != "upscale_denoise"@,
        "sampler"@ != "scheduler"@,
        "sampler"@ != "cfg"@,
        "sampler"@ != "seed"@,
        "sampler"@ != "size"@,
        "sampler"@ != "model"@,
        "sampler"@ != "vae"@,
        "sampler"@ != "denoise"@,
        "sampler"@ != "mode"@,
        "sampler"@ != "loras"@,
        "sampler"@ != "upscale_model"@,
        "sampler"@ != "upscale_scale"@,
        "sampler"@ != "upscale_denoise"@,
        "scheduler"@ != "cfg"@,
        "scheduler"@ != "seed"@,
        "scheduler"@ != "size"@,
        "scheduler"@ != "model"@,
        "scheduler"@ != "vae"@,
        "scheduler"@ != "denoise"@,
        "scheduler"@ != "mode"@,
        "scheduler"@ != "loras"@,
        "scheduler"@ != "upscale_model"@,
        "scheduler"@ != "upscale_scale"@,
        "scheduler"@ != "upscale_denoise"@,
        "cfg"@ != "seed"@,
        "cfg"@ != "size"@,
        "cfg"@ != "model"@,
        "cfg"@ != "vae"@,
        "cfg"@ != "denoise"@,
        "cfg"@ != "mode"@,
        "cfg"@ != "loras"@,
        "cfg"@ != "upscale_model"@,
        "cfg"@ != "upscale_scale"@,
        "cfg"@ != "upscale_denoise"@,
        "seed"@ != "size"@,
        "seed"@ != "model"@,
        "seed"@ != "vae"@,
        "seed"@ != "denoise"@,
        "seed"@ != "mode"@,
        "seed"@ != "loras"@,
        "seed"@ != "upscale_model"@,
        "seed"@ != "upscale_scale"@,
        "seed"@ != "upscale_denoise"@,
        "size"@ != "model"@,
        "size"@ != "vae"@,
        "size"@ != "denoise"@,
        "size"@ != "mode"@,
        "size"@ != "loras"@,
        "size"@ != "upscale_model"@,
        "size"@ != "upscale_scale"@,
        "size"@ != "upscale_denoise"@,
        "model"@ != "vae"@,
        "model"@ != "denoise"@,
        "model"@ != "mode"@,
        "model"@ != "loras"@,
        "model"@ != "upscale_model"@,
        "model"@ != "upscale_scale"@,
        "model"@ != "upscale_denoise"@,
        "vae"@ != "denoise"@,
        "vae"@ != "mode"@,
        "vae"@ != "loras"@,
        "vae"@ != "upscale_model"@,
        "vae"@ != "upscale_scale"@,
        "vae"@ != "upscale_denoise"@,
        "denoise"@ != "mode"@,
        "denoise"@ != "loras"@,
        "denoise"@ != "upscale_model"@,
        "denoise"@ != "upscale_scale"@,
        "denoise"@ != "upscale_denoise"@,
        "mode"@ != "loras"@,
        "mode"@ != "upscale_model"@,
        "mode"@ != "upscale_scale"@,
        "mode"@ != "upscale_denoise"@,
        "loras"@ != "upscale_model"@,
        "loras"@ != "upscale_scale"@,
        "loras"@ != "upscale_denoise"@,
        "upscale_model"@ != "upscale_scale"@,
        "upscale_model"@ != "upscale_denoise"@,
        "upscale_scale"@ != "upscale_denoise"@,
{
    reveal_strlit("steps");
    reveal_strlit("sampler");
    reveal_strlit("scheduler");
    reveal_strlit("cfg");
    reveal_strlit("seed");
    reveal_strlit("size");
    reveal_strlit("model");
    reveal_strlit("vae");
    reveal_strlit("denoise");
    reveal_strlit("mode");
    reveal_strlit("loras");
    reveal_strlit("upscale_model");
    reveal_strlit("upscale_scale");
    reveal_strlit("upscale_denoise");
    assert("steps"@[1] != "sampler"@[1]);
    assert("steps"@[1] != "scheduler"@[1]);
    assert("steps"@[0] != "cfg"@[0]);
    assert("steps"@[1] != "seed"@[1]);
    assert("steps"@[1] != "size"@[1]);
    assert("steps"@[0] != "model"@[0]);
    assert("steps"@[0] != "vae"@[0]);
    assert("steps"@[0] != "denoise"@[0]);
    assert("steps"@[0] != "mode"@[0]);
    assert("steps"@[0] != "loras"@[0]);
    assert("steps"@[0] != "upscale_model"@[0]);
    assert("steps"@[0] != "upscale_scale"@[0]);
    assert("steps"@[0] != "upscale_denoise"@[0]);
    assert("sampler"@[1] != "scheduler"@[1]);
    assert("sampler"@[0] != "cfg"@[0]);
    assert("sampler"@[1] != "seed"@[1]);
    assert("sampler"@[1] != "size"@[1]);
    assert("sampler"@[0] != "model"@[0]);
    assert("sampler"@[0] != "vae"@[0]);
    assert("sampler"@[0] != "denoise"@[0]);
    assert("sampler"@[0] != "mode"@[0]);
    assert("sampler"@[0] != "loras"@[0]);
    assert("sampler"@[0] != "upscale_model"@[0]);
    assert("sampler"@[0] != "upscale_scale"@[0]);
    assert("sampler"@[0] != "upscale_denoise"@[0]);
    assert("scheduler"@[0] != "cfg"@[0]);
    assert("scheduler"@[1] != "seed"@[1]);
    assert("scheduler"@[1] != "size"@[1]);
    assert("scheduler"@[0] != "model"@[0]);
    assert("scheduler"@[0] != "vae"@[0]);
    assert("scheduler"@[0] != "denoise"@[0]);
    assert("scheduler"@[0] != "mode"@[0]);
    assert("scheduler"@[0] != "loras"@[0]);
    assert("scheduler"@[0] != "upscale_model"@[0]);
    assert("scheduler"@[0] != "upscale_scale"@[0]);
    assert("scheduler"@[0] != "upscale_denoise"@[0]);
    assert("cfg"@[0] != "seed"@[0]);
    assert("cfg"@[0] != "size"@[0]);
    assert("cfg"@[0] != "model"@[0]);
    assert("cfg"@[0] != "vae"@[0]);
    assert("cfg"@[0] != "denoise"@[0]);
    assert("cfg"@[0] != "mode"@[0]);
    assert("cfg"@[0] != "loras"@[0]);
    assert("cfg"@[0] != "upscale_model"@[0]);
    assert("cfg"@[0] != "upscale_scale"@[0]);
    assert("cfg"@[0] != "upscale_denoise"@[0]);
    assert("seed"@[1] != "size"@[1]);
    assert("seed"@[0] != "model"@[0]);
    assert("seed"@[0] != "vae"@[0]);
    assert("seed"@[0] != "denoise"@[0]);
    assert("seed"@[0] != "mode"@[0]);
    assert("seed"@[0] != "loras"@[0]);
    assert("seed"@[0] != "upscale_model"@[0]);
    assert("seed"@[0] != "upscale_scale"@[0]);
    assert("seed"@[0] != "upscale_denoise"@[0]);
    assert("size"@[0] != "model"@[0]);
    assert("size"@[0] != "vae"@[0]);
    assert("size"@[0] != "denoise"@[0]);
    assert("size"@[0] != "mode"@[0]);
    assert("size"@[0] != "loras"@[0]);
    assert("size"@[0] != "upscale_model"@[0]);
    assert("size"@[0] != "upscale_scale"@[0]);
    assert("size"@[0] != "upscale_denoise"@[0]);
    assert("model"@[0] != "vae"@[0]);
    assert("model"@[0] != "denoise"@[0]);
    assert("model"@.len() != "mode"@.len());
    assert("model"@[0] != "loras"@[0]);
    assert("model"@[0] != "upscale_model"@[0]);
    assert("model"@[0] != "upscale_scale"@[0]);
    assert("model"@[0] != "upscale_denoise"@[0]);
    assert("vae"@[0] != "denoise"@[0]);
    assert("vae"@[0] != "mode"@[0]);
    assert("vae"@[0] != "loras"@[0]);
    assert("vae"@[0] != "upscale_model"@[0]);
    assert("vae"@[0] != "upscale_scale"@[0]);
    assert("vae"@[0] != "upscale_denoise"@[0]);
    assert("denoise"@[0] != "mode"@[0]);
    assert("denoise"@[0] != "loras"@[0]);
    assert("denoise"@[0] != "upscale_model"@[0]);
    assert("denoise"@[0] != "upscale_scale"@[0]);
    assert("denoise"@[0] != "upscale_denoise"@[0]);
    assert("mode"@[0] != "loras"@[0]);
    assert("mode"@[0] != "upscale_model"@[0]);
    assert("mode"@[0] != "upscale_scale"@[0]);
    assert("mode"@[0] != "upscale_denoise"@[0]);
    assert("loras"@[0] != "upscale_model"@[0]);
    assert("loras"@[0] != "upscale_scale"@[0]);
    assert("loras"@[0] != "upscale_denoise"@[0]);
    assert("upscale_model"@[8] != "upscale_scale"@[8]);
    assert("upscale_model"@[8] != "upscale_denoise"@[8]);
    assert("upscale_scale"@[8] != "upscale_denoise"@[8]);
}

/// The settings keys of an A1111 parameters text that have a parameter name
/// of their own.
pub open spec fn named_setting(k: Seq<char>) -> bool {
    k == "Steps"@ || k == "Sampler"@ || k == "Scheduler"@ || k == "CFG scale"@ || k == "Seed"@ || k == "Size"@ || k == "Model"@ || k == "VAE"@ || k == "Denoising strength"@ || k == "Generation mode"@ || k == "LoRAs"@ || k == "Upscale model"@ || k == "Upscale scale"@ || k == "Upscale denoise"@
}

/// Law: two different named settings keys are stored under different
/// parameter names, so storing one setting never changes the value stored for
/// another.
pub proof fn law_named_settings_distinct(a: Seq<char>, b: Seq<char>)
    requires
        named_setting(a),
        named_setting(b),
        a != b,
    ensures
        normalized_key(a) != normalized_key(b),
{
    lemma_setting_0();
    lemma_setting_1();
    lemma_setting_2();
    lemma_setting_3();
    lemma_setting_4();
    lemma_setting_5();
    lemma_setting_6();
    lemma_setting_7();
    lemma_setting_8();
    lemma_setting_9();
    lemma_setting_10();
    lemma_setting_11();
    lemma_setting_12();
    lemma_setting_13();
    lemma_setting_names_distinct();
}

/// Law: every named settings key is stored under one of the parameter names
/// that the SwarmUI document carries (or `size`), so settings read from an
/// A1111 text land where the rest of the library looks for them.
pub proof fn law_named_settings_are_parameters(k: Seq<char>)
    requires
        named_setting(k),
    ensures
        named_param(normalized_key(k)) || normalized_key(k) == "size"@,
{
    lemma_setting_0();
    lemma_setting_1();
    lemma_setting_2();
    lemma_setting_3();
    lemma_setting_4();
    lemma_setting_5();
    lemma_setting_6();
    lemma_setting_7();
    lemma_setting_8();
    lemma_setting_9();
    lemma_setting_10();
    lemma_setting_11();
    lemma_setting_12();
    lemma_setting_13();
}

/// Law: a one-word settings key (`Steps`, `Sampler`, `Scheduler`, `Seed`,
/// `Size`, `Model`, `VAE`, `LoRAs`) is stored under its own name in ASCII
/// lower case.
pub proof fn law_one_word_settings(k: Seq<char>)
    requires
        k == "Steps"@ || k == "Sampler"@ || k == "Scheduler"@ || k == "Seed"@ || k == "Size"@ || k == "Model"@
            || k == "VAE"@ || k == "LoRAs"@,
    ensures
        normalized_key(k) == lower(k),
{
    reveal_strlit("Steps");
    reveal_strlit("Sampler");
    reveal_strlit("Scheduler");
    reveal_strlit("CFG scale");
    reveal_strlit("Seed");
    reveal_strlit("Size");
    reveal_strlit("Model");
    reveal_strlit("VAE");
    reveal_strlit("Denoising strength");
    reveal_strlit("Generation mode");
    reveal_strlit("LoRAs");
    reveal_strlit("Upscale model");
    reveal_strlit("Upscale scale");
    reveal_strlit("Upscale denoise");
    reveal_strlit("steps");
    reveal_strlit("sampler");
    reveal_strlit("scheduler");
    reveal_strlit("cfg");
    reveal_strlit("seed");
    reveal_strlit("size");
    reveal_strlit("model");
    reveal_strlit("vae");
    reveal_strlit("denoise");
    reveal_strlit("mode");
    reveal_strlit("loras");
    reveal_strlit("upscale_model");
    reveal_strlit("upscale_scale");
    reveal_strlit("upscale_denoise");
    assert(normalized_key(k) =~= lower(k));
}

} // verus!
