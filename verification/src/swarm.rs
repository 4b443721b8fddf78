//! The SwarmUI-compatible metadata document and the flat parameter map it is
//! made from and read back into. The document is held as its three JSON
//! objects (`sui_image_params`, `sui_extra_data`, `mooshie_extra`), each
//! value with its JSON kind and text; writing it as JSON text is the
//! caller's.
use vstd::prelude::*;
use crate::strmap::{StrMap, str_eq};
use crate::text::{
    chars_of, string_of, occurs_at, occurs_at_exec, char_pos, lemma_char_pos, find_chars, parse_u32, parse_u32_chars,
    decimal, u64_to_string, push_str, all_digits, digits_value,
};

verus! {

/// The kind of a JSON value.
#[derive(PartialEq, Eq, Structural, Clone, Copy)]
pub enum JsonKind {
    /// A string; the text is its content.
    Str,
    /// A number; the text is how JSON writes it.
    Number,
    /// Anything else; the text is how JSON writes it.
    Other,
}

/// A JSON value: its kind and its text.
pub struct JsonText {
    pub kind: JsonKind,
    pub text: String,
}

/// A JSON value as values.
pub type JsonView = (JsonKind, Seq<char>);

impl DeepView for JsonText {
    type V = JsonView;

    open spec fn deep_view(&self) -> JsonView {
        (self.kind, self.text@)
    }
}

/// A JSON object as a map.
pub type ObjView = Map<Seq<char>, JsonView>;

/// The flat parameter map.
pub type Params = Map<Seq<char>, Seq<char>>;

/// The metadata document.
pub struct SwarmDoc {
    /// `sui_image_params`.
    pub image_params: StrMap<JsonText>,
    /// `sui_extra_data`.
    pub extra_data: StrMap<JsonText>,
    /// `mooshie_extra`.
    pub mooshie_extra: StrMap<JsonText>,
}

impl SwarmDoc {
    pub open spec fn wf(&self) -> bool {
        self.image_params.wf() && self.extra_data.wf() && self.mooshie_extra.wf()
    }

    pub open spec fn view(&self) -> (ObjView, ObjView, ObjView) {
        (self.image_params.view(), self.extra_data.view(), self.mooshie_extra.view())
    }
}

// ---------------------------------------------------------------------------
// Writing
// ---------------------------------------------------------------------------

/// The parameters written as strings into `sui_image_params`, with their
/// SwarmUI names.
pub open spec fn image_names() -> Seq<(Seq<char>, Seq<char>)> {
    seq![("positive_prompt"@, "prompt"@), ("negative_prompt"@, "negativeprompt"@), ("model"@, "model"@),
        ("vae"@, "vae"@), ("seed"@, "seed"@), ("steps"@, "steps"@), ("cfg"@, "cfgscale"@), ("sampler"@, "sampler"@),
        ("scheduler"@, "scheduler"@), ("denoise"@, "denoise"@), ("mode"@, "generationmode"@), ("loras"@, "loras"@),
        ("upscale_model"@, "upscalemodel"@), ("upscale_scale"@, "upscalescale"@), ("upscale_denoise"@, "upscaledenoise"@)]
}

/// `m` with the non-empty parameter `from` stored as a string under `to`.
pub open spec fn put_str(m: ObjView, p: Params, from: Seq<char>, to: Seq<char>) -> ObjView {
    if p.contains_key(from) && p[from].len() > 0 {
        m.insert(to, (JsonKind::Str, p[from]))
    } else {
        m
    }
}

/// `m` with the first `k` named parameters stored.
pub open spec fn put_all(m: ObjView, p: Params, names: Seq<(Seq<char>, Seq<char>)>, k: int) -> ObjView
    decreases k,
{
    if k <= 0 || k > names.len() {
        m
    } else {
        put_str(put_all(m, p, names, k - 1), p, names[k - 1].0, names[k - 1].1)
    }
}

/// The width and height of a `WxH` size, both parsed as `u32`.
pub open spec fn size_dims(s: Seq<char>) -> Option<(u32, u32)> {
    match char_pos(s, 'x') {
        Some(i) => match (parse_u32(s.take(i)), parse_u32(s.skip(i + 1))) {
            (Some(w), Some(h)) => Some((w, h)),
            _ => None,
        },
        None => None,
    }
}

/// `sui_image_params` for the parameters: the named parameters, the width
/// and height of a parsable size as numbers, and the writer's version.
pub open spec fn image_of(p: Params, version: Seq<char>) -> ObjView {
    let m1 = put_all(Map::empty(), p, image_names(), 12);
    let m2 = if p.contains_key("size"@) && size_dims(p["size"@]) is Some {
        let (w, h) = size_dims(p["size"@])->0;
        m1.insert("width"@, (JsonKind::Number, decimal(w as nat))).insert("height"@, (JsonKind::Number, decimal(h as nat)))
    } else {
        m1
    };
    let m3 = put_all(m2, p, image_names().skip(12), 3);
    m3.insert("mooshie_version"@, (JsonKind::Str, version))
}

/// `sui_extra_data` for the parameters: the date and generation time.
pub open spec fn extra_of(p: Params) -> ObjView {
    put_str(put_str(Map::empty(), p, "date"@, "date"@), p, "generation_time"@, "generation_time"@)
}

/// The parameter `mooshie_<k>` is present and not empty.
pub open spec fn user_extra(p: Params, k: Seq<char>) -> bool {
    p.contains_key("mooshie_"@ + k) && p["mooshie_"@ + k].len() > 0
}

/// `mooshie_extra` for the parameters: `software: MooshieUI`, then every
/// non-empty `mooshie_<k>` parameter under `k` (which may replace it).
pub open spec fn mooshie_of(p: Params) -> ObjView {
    Map::new(
        |k: Seq<char>| k == "software"@ || user_extra(p, k),
        |k: Seq<char>| if user_extra(p, k) { (JsonKind::Str, p["mooshie_"@ + k]) } else { (JsonKind::Str, "MooshieUI"@) },
    )
}

/// The document written for the parameters.
pub open spec fn doc_of(p: Params, version: Seq<char>) -> (ObjView, ObjView, ObjView) {
    (image_of(p, version), extra_of(p), mooshie_of(p))
}

/// Store the non-empty parameter `from` as a string under `to`.
fn put_param(m: &mut StrMap<JsonText>, params: &StrMap<String>, from: &str, to: &str)
    requires
        old(m).wf(),
        params.wf(),
    ensures
        final(m).wf(),
        final(m).view() == put_str(old(m).view(), params.view(), from@, to@),
{
    match params.get(from) {
        Some(v) => {
            if v.unicode_len() > 0 {
                m.insert(String::from_str(to), JsonText { kind: JsonKind::Str, text: v.clone() });
            }
        },
        None => {},
    }
}

/// The width and height of a `WxH` size.
pub fn parse_size(s: &str) -> (r: Option<(u32, u32)>)
    ensures
        r == size_dims(s@),
{
    let cs = chars_of(s);
    let x: Vec<char> = vec!['x'];
    assert(x@ =~= seq!['x']);
    match find_chars(&cs, &x, 0) {
        Some(i) => {
            proof {
                lemma_char_pos(cs@, 'x');
            }
            let n = cs.len();
            assert(i < n);
            let w = parse_u32_chars(&cs, 0, i);
            let h = parse_u32_chars(&cs, i + 1, n);
            assert(cs@.subrange(0, i as int) =~= cs@.take(i as int));
            assert(cs@.subrange(i + 1, n as int) =~= cs@.skip(i + 1));
            match (w, h) {
                (Some(a), Some(b)) => Some((a, b)),
                _ => None,
            }
        },
        None => None,
    }
}

/// The SwarmUI-compatible document for the parameters, written by the
/// application at `version`.
pub fn format_swarm_doc(params: &StrMap<String>, version: &str) -> (r: SwarmDoc)
    requires
        params.wf(),
    ensures
        r.wf(),
        r.view() == doc_of(params.view(), version@),
{
    let ghost p = params.view();
    let names: Vec<(&str, &str)> = vec![("positive_prompt", "prompt"), ("negative_prompt", "negativeprompt"),
        ("model", "model"), ("vae", "vae"), ("seed", "seed"), ("steps", "steps"), ("cfg", "cfgscale"),
        ("sampler", "sampler"), ("scheduler", "scheduler"), ("denoise", "denoise"), ("mode", "generationmode"),
        ("loras", "loras"), ("upscale_model", "upscalemodel"), ("upscale_scale", "upscalescale"),
        ("upscale_denoise", "upscaledenoise")];
    let ghost nv = names@.map_values(|q: (&str, &str)| (q.0@, q.1@));
    assert(nv =~= image_names());
    let mut image: StrMap<JsonText> = StrMap::new();
    let mut i: usize = 0;
    while i < 12
        invariant
            i <= 12,
            names@.len() == 15,
            nv == names@.map_values(|q: (&str, &str)| (q.0@, q.1@)),
            nv == image_names(),
            params.wf(),
            p == params.view(),
            image.wf(),
            image.view() == put_all(Map::empty(), p, nv, i as int),
        decreases 12 - i,
    {
        put_param(&mut image, params, names[i].0, names[i].1);
        i += 1;
    }
    match params.get("size") {
        Some(s) => match parse_size(s.as_str()) {
            Some((w, h)) => {
                image.insert(String::from_str("width"), JsonText { kind: JsonKind::Number, text: u64_to_string(w as u64) });
                image.insert(String::from_str("height"), JsonText { kind: JsonKind::Number, text: u64_to_string(h as u64) });
            },
            None => {},
        },
        None => {},
    }
    let ghost m2 = image.view();
    let ghost rest = nv.skip(12);
    let mut j: usize = 12;
    while j < 15
        invariant
            12 <= j <= 15,
            names@.len() == 15,
            nv == names@.map_values(|q: (&str, &str)| (q.0@, q.1@)),
            rest == nv.skip(12),
            params.wf(),
            p == params.view(),
            image.wf(),
            image.view() == put_all(m2, p, rest, j - 12),
        decreases 15 - j,
    {
        assert(rest[j - 12] == nv[j as int]);
        put_param(&mut image, params, names[j].0, names[j].1);
        j += 1;
    }
    image.insert(String::from_str("mooshie_version"), JsonText { kind: JsonKind::Str, text: String::from_str(version) });
    let mut extra: StrMap<JsonText> = StrMap::new();
    put_param(&mut extra, params, "date", "date");
    put_param(&mut extra, params, "generation_time", "generation_time");
    let mooshie = mooshie_extras(params);
    SwarmDoc { image_params: image, extra_data: extra, mooshie_extra: mooshie }
}

/// `mooshie_extra` as built from the first `n` stored parameters.
pub open spec fn mooshie_upto(params: StrMap<String>, n: int) -> ObjView {
    Map::new(
        |k: Seq<char>| k == "software"@ || found_upto(params, n, k),
        |k: Seq<char>| if found_upto(params, n, k) { (JsonKind::Str, params.view()["mooshie_"@ + k]) } else { (JsonKind::Str, "MooshieUI"@) },
    )
}

/// Whether stored entry `j < n` is the non-empty parameter `mooshie_<k>`.
pub open spec fn found_upto(params: StrMap<String>, n: int, k: Seq<char>) -> bool {
    exists|j: int| 0 <= j < n && #[trigger] params.spec_key(j) == "mooshie_"@ + k && params.spec_val(j).len() > 0
}

proof fn lemma_upto_step(params: StrMap<String>, i: int, x: Seq<char>)
    requires
        0 <= i < params.spec_len(),
    ensures
        found_upto(params, i + 1, x) <==> (found_upto(params, i, x) || (params.spec_key(i) == "mooshie_"@ + x
            && params.spec_val(i).len() > 0)),
{
    if found_upto(params, i + 1, x) {
        let j = choose|j: int| 0 <= j < i + 1 && #[trigger] params.spec_key(j) == "mooshie_"@ + x
            && params.spec_val(j).len() > 0;
        if j < i {
            assert(found_upto(params, i, x));
        }
    }
    if found_upto(params, i, x) {
        let j = choose|j: int| 0 <= j < i && #[trigger] params.spec_key(j) == "mooshie_"@ + x
            && params.spec_val(j).len() > 0;
        assert(0 <= j < i + 1);
    }
    if params.spec_key(i) == "mooshie_"@ + x && params.spec_val(i).len() > 0 {
        assert(found_upto(params, i + 1, x));
    }
}

proof fn lemma_upto_all(params: StrMap<String>, x: Seq<char>)
    requires
        params.wf(),
    ensures
        found_upto(params, params.spec_len() as int, x) <==> user_extra(params.view(), x),
{
    params.lemma_covered("mooshie_"@ + x);
    if found_upto(params, params.spec_len() as int, x) {
        let j = choose|j: int| 0 <= j < params.spec_len() && #[trigger] params.spec_key(j) == "mooshie_"@ + x
            && params.spec_val(j).len() > 0;
        params.lemma_index(j);
    }
    if user_extra(params.view(), x) {
        let j = choose|j: int| 0 <= j < params.spec_len() && params.spec_key(j) == "mooshie_"@ + x;
        params.lemma_index(j);
        assert(found_upto(params, params.spec_len() as int, x));
    }
}

/// The `mooshie_extra` object for the parameters.
fn mooshie_extras(params: &StrMap<String>) -> (r: StrMap<JsonText>)
    requires
        params.wf(),
    ensures
        r.wf(),
        r.view() == mooshie_of(params.view()),
{
    proof {
        reveal_strlit("mooshie_");
        reveal_strlit("software");
    }
    let prefix: Vec<char> = vec!['m', 'o', 'o', 's', 'h', 'i', 'e', '_'];
    assert(prefix@ =~= "mooshie_"@);
    let mut m: StrMap<JsonText> = StrMap::new();
    m.insert(String::from_str("software"), JsonText { kind: JsonKind::Str, text: String::from_str("MooshieUI") });
    assert(m.view() =~= mooshie_upto(*params, 0));
    let n = params.len();
    let mut i: usize = 0;
    while i < n
        invariant
            i <= n,
            n == params.spec_len(),
            params.wf(),
            prefix@ == "mooshie_"@,
            "mooshie_"@.len() == 8,
            m.wf(),
            m.view() == mooshie_upto(*params, i as int),
        decreases n - i,
    {
        let (k, v) = params.entry(i);
        let kc = chars_of(k.as_str());
        if kc.len() >= 8 && occurs_at_exec(&kc, &prefix, 0) && v.unicode_len() > 0 {
            let stripped = string_of(&kc, 8, kc.len());
            proof {
                params.lemma_index(i as int);
                assert("mooshie_"@ + stripped@ =~= k@);
            }
            let ghost sk = stripped@;
            let ghost before = m.view();
            let vt = v.clone();
            assert(vt@ == v@);
            m.insert(stripped, JsonText { kind: JsonKind::Str, text: vt });
            proof {
                let a = m.view();
                let b = mooshie_upto(*params, i + 1);
                let c = mooshie_upto(*params, i as int);
                assert(a == c.insert(sk, (JsonKind::Str, v@)));
                assert(params.spec_key(i as int) == "mooshie_"@ + sk);
                assert(params.view()["mooshie_"@ + sk] == v@);
                assert forall|x: Seq<char>| a.dom().contains(x) <==> b.dom().contains(x) by {
                    lemma_upto_step(*params, i as int, x);
                    if x != sk && params.spec_key(i as int) == "mooshie_"@ + x {
                        assert(("mooshie_"@ + x).skip(8) =~= x);
                        assert(("mooshie_"@ + sk).skip(8) =~= sk);
                    }
                }
                assert forall|x: Seq<char>| a.dom().contains(x) implies a[x] == b[x] by {
                    lemma_upto_step(*params, i as int, x);
                    if x != sk && params.spec_key(i as int) == "mooshie_"@ + x {
                        assert(("mooshie_"@ + x).skip(8) =~= x);
                        assert(("mooshie_"@ + sk).skip(8) =~= sk);
                    }
                }
                assert(a =~= b);
            }
        } else {
            proof {
                let b = mooshie_upto(*params, i + 1);
                let c = mooshie_upto(*params, i as int);
                if params.spec_val(i as int).len() > 0 {
                    params.lemma_index(i as int);
                }
                assert forall|x: Seq<char>| c.dom().contains(x) <==> b.dom().contains(x) by {
                    lemma_upto_step(*params, i as int, x);
                    if params.spec_key(i as int) == "mooshie_"@ + x && params.spec_val(i as int).len() > 0 {
                        assert(kc@.subrange(0, 8) =~= "mooshie_"@);
                    }
                }
                assert forall|x: Seq<char>| c.dom().contains(x) implies c[x] == b[x] by {
                    lemma_upto_step(*params, i as int, x);
                    if params.spec_key(i as int) == "mooshie_"@ + x && params.spec_val(i as int).len() > 0 {
                        assert(kc@.subrange(0, 8) =~= "mooshie_"@);
                    }
                }
                assert(c =~= b);
            }
        }
        i += 1;
    }
    proof {
        let a = mooshie_upto(*params, n as int);
        let b = mooshie_of(params.view());
        assert forall|x: Seq<char>| a.dom().contains(x) <==> b.dom().contains(x) by {
            lemma_upto_all(*params, x);
        }
        assert forall|x: Seq<char>| a.dom().contains(x) implies a[x] == b[x] by {
            lemma_upto_all(*params, x);
        }
        assert(a =~= b);
    }
    m
}


// ---------------------------------------------------------------------------
// Reading
// ---------------------------------------------------------------------------

/// `q` with the value stored under `from`, when its text is not empty, put
/// under `to`.
pub open spec fn get_text(q: Params, m: ObjView, from: Seq<char>, to: Seq<char>) -> Params {
    if m.contains_key(from) && m[from].1.len() > 0 {
        q.insert(to, m[from].1)
    } else {
        q
    }
}

/// `q` with the first `k` named values read back under their parameter names.
pub open spec fn get_all(q: Params, m: ObjView, names: Seq<(Seq<char>, Seq<char>)>, k: int) -> Params
    decreases k,
{
    if k <= 0 || k > names.len() {
        q
    } else {
        get_text(get_all(q, m, names, k - 1), m, names[k - 1].1, names[k - 1].0)
    }
}

/// The text of a width or height: that of a number or string, else empty.
pub open spec fn dim_text(v: JsonView) -> Seq<char> {
    if v.0 == JsonKind::Other { Seq::empty() } else { v.1 }
}

/// The parameters read back from `mooshie_extra`: each non-empty value but
/// the `software` marker, under `mooshie_<key>`.
pub open spec fn mooshie_back(moo: ObjView) -> Params {
    Map::new(
        |x: Seq<char>| occurs_at(x, "mooshie_"@, 0) && moo.contains_key(x.skip(8)) && x.skip(8) != "software"@
            && moo[x.skip(8)].1.len() > 0,
        |x: Seq<char>| moo[x.skip(8)].1,
    )
}

/// The parameters read from a document: the named image parameters, the
/// size from a width and a height, the date and generation time when they
/// are strings, and the `mooshie_extra` values.
pub open spec fn params_of(doc: (ObjView, ObjView, ObjView)) -> Params {
    let (img, extra, moo) = doc;
    let q1 = get_all(Map::empty(), img, image_names(), 15);
    let q2 = if img.contains_key("width"@) && img.contains_key("height"@) && dim_text(img["width"@]).len() > 0
        && dim_text(img["height"@]).len() > 0 {
        q1.insert("size"@, dim_text(img["width"@]) + "x"@ + dim_text(img["height"@]))
    } else {
        q1
    };
    let q3 = if extra.contains_key("date"@) && extra["date"@].0 == JsonKind::Str {
        q2.insert("date"@, extra["date"@].1)
    } else {
        q2
    };
    let q4 = if extra.contains_key("generation_time"@) && extra["generation_time"@].0 == JsonKind::Str {
        q3.insert("generation_time"@, extra["generation_time"@].1)
    } else {
        q3
    };
    q4.union_prefer_right(mooshie_back(moo))
}

/// Read the value under `from` back into `to` when its text is not empty.
fn get_param(q: &mut StrMap<String>, m: &StrMap<JsonText>, from: &str, to: &str)
    requires
        old(q).wf(),
        m.wf(),
    ensures
        final(q).wf(),
        final(q).view() == get_text(old(q).view(), m.view(), from@, to@),
{
    match m.get(from) {
        Some(v) => {
            if v.text.unicode_len() > 0 {
                q.insert(String::from_str(to), v.text.clone());
            }
        },
        None => {},
    }
}

/// The text of a width or height value.
fn dim_text_exec(v: &JsonText) -> (r: String)
    ensures
        r@ == dim_text(v.deep_view()),
{
    match v.kind {
        JsonKind::Other => String::new(),
        _ => v.text.clone(),
    }
}

/// The flat parameters of a SwarmUI-compatible document; None when it holds
/// none.
pub fn parse_swarm_doc(doc: &SwarmDoc) -> (r: Option<StrMap<String>>)
    requires
        doc.wf(),
    ensures
        match r {
            Some(m) => m.wf() && m.view() == params_of(doc.view()) && m.view() != Map::<Seq<char>, Seq<char>>::empty(),
            None => params_of(doc.view()) == Map::<Seq<char>, Seq<char>>::empty(),
        },
{
    proof {
        reveal_strlit("mooshie_");
    }
    let names: Vec<(&str, &str)> = vec![("positive_prompt", "prompt"), ("negative_prompt", "negativeprompt"),
        ("model", "model"), ("vae", "vae"), ("seed", "seed"), ("steps", "steps"), ("cfg", "cfgscale"),
        ("sampler", "sampler"), ("scheduler", "scheduler"), ("denoise", "denoise"), ("mode", "generationmode"),
        ("loras", "loras"), ("upscale_model", "upscalemodel"), ("upscale_scale", "upscalescale"),
        ("upscale_denoise", "upscaledenoise")];
    let ghost nv = names@.map_values(|q: (&str, &str)| (q.0@, q.1@));
    assert(nv =~= image_names());
    let img = &doc.image_params;
    let mut q: StrMap<String> = StrMap::new();
    let mut i: usize = 0;
    while i < 15
        invariant
            i <= 15,
            names@.len() == 15,
            nv == names@.map_values(|q: (&str, &str)| (q.0@, q.1@)),
            nv == image_names(),
            img.wf(),
            q.wf(),
            q.view() == get_all(Map::empty(), img.view(), nv, i as int),
        decreases 15 - i,
    {
        get_param(&mut q, img, names[i].1, names[i].0);
        i += 1;
    }
    match (img.get("width"), img.get("height")) {
        (Some(w), Some(h)) => {
            let ws = dim_text_exec(w);
            let hs = dim_text_exec(h);
            if ws.unicode_len() > 0 && hs.unicode_len() > 0 {
                let mut size = ws;
                push_str(&mut size, "x");
                push_str(&mut size, hs.as_str());
                q.insert(String::from_str("size"), size);
            }
        },
        _ => {},
    }
    let extra = &doc.extra_data;
    match extra.get("date") {
        Some(d) => {
            if d.kind == JsonKind::Str {
                q.insert(String::from_str("date"), d.text.clone());
            }
        },
        None => {},
    }
    match extra.get("generation_time") {
        Some(g) => {
            if g.kind == JsonKind::Str {
                q.insert(String::from_str("generation_time"), g.text.clone());
            }
        },
        None => {},
    }
    let ghost q4 = q.view();
    let moo = &doc.mooshie_extra;
    let n = moo.len();
    let mut j: usize = 0;
    while j < n
        invariant
            j <= n,
            n == moo.spec_len(),
            moo.wf(),
            q.wf(),
            "mooshie_"@.len() == 8,
            q.view() == q4.union_prefer_right(back_upto(*moo, j as int)),
        decreases n - j,
    {
        let (k, v) = moo.entry(j);
        let ghost before = q.view();
        if !str_eq(k.as_str(), "software") && v.text.unicode_len() > 0 {
            let mut key = String::from_str("mooshie_");
            push_str(&mut key, k.as_str());
            let ghost kk = key@;
            let t = v.text.clone();
            assert(t@ == v.text@);
            q.insert(key, t);
            proof {
                lemma_back_step(*moo, j as int, kk);
                assert(kk.skip(8) =~= k@);
                assert(kk.subrange(0, 8) =~= "mooshie_"@);
                assert(occurs_at(kk, "mooshie_"@, 0));
                assert(q.view() == before.insert(kk, v.text@));
                assert(back_found(*moo, j + 1, kk));
                assert forall|x: Seq<char>| #![auto] q.view().dom().contains(x) <==> q4.union_prefer_right(back_upto(*moo, j + 1)).dom().contains(x) by {
                    lemma_back_step(*moo, j as int, x);
                    if x != kk && occurs_at(x, "mooshie_"@, 0) && x.skip(8) == k@ {
                        assert(x.subrange(0, 8) =~= "mooshie_"@);
                        assert(x =~= x.subrange(0, 8) + x.skip(8));
                        assert(x =~= kk);
                    }
                }
                assert forall|x: Seq<char>| #![auto] q.view().dom().contains(x) implies q.view()[x] == q4.union_prefer_right(back_upto(*moo, j + 1))[x] by {
                    lemma_back_step(*moo, j as int, x);
                    if x != kk && occurs_at(x, "mooshie_"@, 0) && x.skip(8) == k@ {
                        assert(x.subrange(0, 8) =~= "mooshie_"@);
                        assert(x =~= x.subrange(0, 8) + x.skip(8));
                        assert(x =~= kk);
                    }
                }
                assert(q.view() =~= q4.union_prefer_right(back_upto(*moo, j + 1)));
            }
        } else {
            proof {
                assert forall|x: Seq<char>| #![auto] back_upto(*moo, j as int).dom().contains(x) <==> back_upto(*moo, j + 1).dom().contains(x) by {
                    lemma_back_step(*moo, j as int, x);
                }
                assert forall|x: Seq<char>| #![auto] back_upto(*moo, j as int).dom().contains(x) implies back_upto(*moo, j as int)[x] == back_upto(*moo, j + 1)[x] by {
                    lemma_back_step(*moo, j as int, x);
                }
                assert(back_upto(*moo, j as int) =~= back_upto(*moo, j + 1));
            }
        }
        j += 1;
    }
    proof {
        assert forall|x: Seq<char>| #![auto] back_upto(*moo, n as int).dom().contains(x) <==> mooshie_back(moo.view()).dom().contains(x) by {
            lemma_back_all(*moo, x);
        }
        assert forall|x: Seq<char>| #![auto] back_upto(*moo, n as int).dom().contains(x) implies back_upto(*moo, n as int)[x] == mooshie_back(moo.view())[x] by {
            lemma_back_all(*moo, x);
        }
        assert(back_upto(*moo, n as int) =~= mooshie_back(moo.view()));
    }
    if q.len() == 0 {
        proof {
            q.lemma_empty_view();
        }
        None
    } else {
        proof {
            q.lemma_index(0);
        }
        Some(q)
    }
}

/// `mooshie_back` over the first `n` stored entries.
pub open spec fn back_found(moo: StrMap<JsonText>, n: int, x: Seq<char>) -> bool {
    exists|j: int| 0 <= j < n && #[trigger] moo.spec_key(j) == x.skip(8) && occurs_at(x, "mooshie_"@, 0)
        && x.skip(8) != "software"@ && moo.spec_val(j).1.len() > 0
}

pub open spec fn back_upto(moo: StrMap<JsonText>, n: int) -> Params {
    Map::new(|x: Seq<char>| back_found(moo, n, x), |x: Seq<char>| moo.view()[x.skip(8)].1)
}

proof fn lemma_back_step(moo: StrMap<JsonText>, j: int, x: Seq<char>)
    requires
        moo.wf(),
        0 <= j < moo.spec_len(),
    ensures
        back_found(moo, j + 1, x) <==> (back_found(moo, j, x) || (moo.spec_key(j) == x.skip(8) && occurs_at(
            x,
            "mooshie_"@,
            0,
        ) && x.skip(8) != "software"@ && moo.spec_val(j).1.len() > 0)),
        moo.view().contains_key(moo.spec_key(j)),
        moo.view()[moo.spec_key(j)] == moo.spec_val(j),
{
    moo.lemma_index(j);
    if back_found(moo, j + 1, x) {
        let i = choose|i: int| 0 <= i < j + 1 && #[trigger] moo.spec_key(i) == x.skip(8) && occurs_at(x, "mooshie_"@, 0)
            && x.skip(8) != "software"@ && moo.spec_val(i).1.len() > 0;
        if i < j {
            assert(back_found(moo, j, x));
        }
    }
    if back_found(moo, j, x) {
        let i = choose|i: int| 0 <= i < j && #[trigger] moo.spec_key(i) == x.skip(8) && occurs_at(x, "mooshie_"@, 0)
            && x.skip(8) != "software"@ && moo.spec_val(i).1.len() > 0;
        assert(0 <= i < j + 1);
    }
    if moo.spec_key(j) == x.skip(8) && occurs_at(x, "mooshie_"@, 0) && x.skip(8) != "software"@ && moo.spec_val(
        j,
    ).1.len() > 0 {
        assert(back_found(moo, j + 1, x));
    }
}

proof fn lemma_back_all(moo: StrMap<JsonText>, x: Seq<char>)
    requires
        moo.wf(),
    ensures
        back_found(moo, moo.spec_len() as int, x) <==> mooshie_back(moo.view()).dom().contains(x),
{
    moo.lemma_covered(x.skip(8));
    if back_found(moo, moo.spec_len() as int, x) {
        let i = choose|i: int| 0 <= i < moo.spec_len() && #[trigger] moo.spec_key(i) == x.skip(8) && occurs_at(x, "mooshie_"@, 0)
            && x.skip(8) != "software"@ && moo.spec_val(i).1.len() > 0;
        moo.lemma_index(i);
    }
    if mooshie_back(moo.view()).dom().contains(x) {
        let i = choose|i: int| 0 <= i < moo.spec_len() && moo.spec_key(i) == x.skip(8);
        moo.lemma_index(i);
        assert(back_found(moo, moo.spec_len() as int, x));
    }
}


// ---------------------------------------------------------------------------
// Round trip
// ---------------------------------------------------------------------------

/// A parameter written under a SwarmUI name.
pub open spec fn named_param(k: Seq<char>) -> bool {
    k == "positive_prompt"@ || k == "negative_prompt"@ || k == "model"@ || k == "vae"@ || k == "seed"@ || k
        == "steps"@ || k == "cfg"@ || k == "sampler"@ || k == "scheduler"@ || k == "denoise"@ || k == "mode"@ || k
        == "loras"@ || k == "upscale_model"@ || k == "upscale_scale"@ || k == "upscale_denoise"@
}

/// A parameter that a write and a read carry over: a named parameter, the
/// date or the generation time, when not empty; a size that parses; a
/// non-empty `mooshie_<k>` parameter but `mooshie_software`.
pub open spec fn kept_param(p: Params, k: Seq<char>) -> bool {
    ||| (named_param(k) || k == "date"@ || k == "generation_time"@) && p.contains_key(k) && p[k].len() > 0
    ||| k == "size"@ && p.contains_key("size"@) && size_dims(p["size"@]) is Some
    ||| occurs_at(k, "mooshie_"@, 0) && k.skip(8) != "software"@ && p.contains_key(k) && p[k].len() > 0
}

/// The parameters a write and a read give back: the kept ones, the size
/// written as `<width>x<height>` in plain decimal.
pub open spec fn round_trip_params(p: Params) -> Params {
    Map::new(
        |k: Seq<char>| kept_param(p, k),
        |k: Seq<char>| if k == "size"@ {
            decimal(dims_w(p["size"@]) as nat) + "x"@ + decimal(dims_h(p["size"@]) as nat)
        } else {
            p[k]
        },
    )
}

/// The width of a parsable size.
pub open spec fn dims_w(s: Seq<char>) -> u32 {
    match size_dims(s) {
        Some((w, _h)) => w,
        None => 0,
    }
}

/// The height of a parsable size.
pub open spec fn dims_h(s: Seq<char>) -> u32 {
    match size_dims(s) {
        Some((_w, h)) => h,
        None => 0,
    }
}

proof fn lemma_decimal_nonempty(n: nat)
    ensures
        decimal(n).len() > 0,
    decreases n,
{
    if n >= 10 {
        lemma_decimal_nonempty(n / 10);
    }
}


/// The names of the image object are pairwise distinct.
proof fn lemma_swarm_names_distinct()
    ensures
        "prompt"@ != "negativeprompt"@,
        "prompt"@ != "model"@,
        "prompt"@ != "vae"@,
        "prompt"@ != "seed"@,
        "prompt"@ != "steps"@,
        "prompt"@ != "cfgscale"@,
        "prompt"@ != "sampler"@,
        "prompt"@ != "scheduler"@,
        "prompt"@ != "denoise"@,
        "prompt"@ != "generationmode"@,
        "prompt"@ != "loras"@,
        "prompt"@ != "upscalemodel"@,
        "prompt"@ != "upscalescale"@,
        "prompt"@ != "upscaledenoise"@,
        "prompt"@ != "width"@,
        "prompt"@ != "height"@,
        "prompt"@ != "mooshie_version"@,
        "negativeprompt"@ != "model"@,
        "negativeprompt"@ != "vae"@,
        "negativeprompt"@ != "seed"@,
        "negativeprompt"@ != "steps"@,
        "negativeprompt"@ != "cfgscale"@,
        "negativeprompt"@ != "sampler"@,
        "negativeprompt"@ != "scheduler"@,
        "negativeprompt"@ != "denoise"@,
        "negativeprompt"@ != "generationmode"@,
        "negativeprompt"@ != "loras"@,
        "negativeprompt"@ != "upscalemodel"@,
        "negativeprompt"@ != "upscalescale"@,
        "negativeprompt"@ != "upscaledenoise"@,
        "negativeprompt"@ != "width"@,
        "negativeprompt"@ != "height"@,
        "negativeprompt"@ != "mooshie_version"@,
        "model"@ != "vae"@,
        "model"@ != "seed"@,
        "model"@ != "steps"@,
        "model"@ != "cfgscale"@,
        "model"@ != "sampler"@,
        "model"@ != "scheduler"@,
        "model"@ != "denoise"@,
        "model"@ != "generationmode"@,
        "model"@ != "loras"@,
        "model"@ != "upscalemodel"@,
        "model"@ != "upscalescale"@,
        "model"@ != "upscaledenoise"@,
        "model"@ != "width"@,
        "model"@ != "height"@,
        "model"@ != "mooshie_version"@,
        "vae"@ != "seed"@,
        "vae"@ != "steps"@,
        "vae"@ != "cfgscale"@,
        "vae"@ != "sampler"@,
        "vae"@ != "scheduler"@,
        "vae"@ != "denoise"@,
        "vae"@ != "generationmode"@,
        "vae"@ != "loras"@,
        "vae"@ != "upscalemodel"@,
        "vae"@ != "upscalescale"@,
        "vae"@ != "upscaledenoise"@,
        "vae"@ != "width"@,
        "vae"@ != "height"@,
        "vae"@ != "mooshie_version"@,
        "seed"@ != "steps"@,
        "seed"@ != "cfgscale"@,
        "seed"@ != "sampler"@,
        "seed"@ != "scheduler"@,
        "seed"@ != "denoise"@,
        "seed"@ != "generationmode"@,
        "seed"@ != "loras"@,
        "seed"@ != "upscalemodel"@,
        "seed"@ != "upscalescale"@,
        "seed"@ != "upscaledenoise"@,
        "seed"@ != "width"@,
        "seed"@ != "height"@,
        "seed"@ != "mooshie_version"@,
        "steps"@ != "cfgscale"@,
        "steps"@ != "sampler"@,
        "steps"@ != "scheduler"@,
        "steps"@ != "denoise"@,
        "steps"@ != "generationmode"@,
        "steps"@ != "loras"@,
        "steps"@ != "upscalemodel"@,
        "steps"@ != "upscalescale"@,
        "steps"@ != "upscaledenoise"@,
        "steps"@ != "width"@,
        "steps"@ != "height"@,
        "steps"@ != "mooshie_version"@,
        "cfgscale"@ != "sampler"@,
        "cfgscale"@ != "scheduler"@,
        "cfgscale"@ != "denoise"@,
        "cfgscale"@ != "generationmode"@,
        "cfgscale"@ != "loras"@,
        "cfgscale"@ != "upscalemodel"@,
        "cfgscale"@ != "upscalescale"@,
        "cfgscale"@ != "upscaledenoise"@,
        "cfgscale"@ != "width"@,
        "cfgscale"@ != "height"@,
        "cfgscale"@ != "mooshie_version"@,
        "sampler"@ != "scheduler"@,
        "sampler"@ != "denoise"@,
        "sampler"@ != "generationmode"@,
        "sampler"@ != "loras"@,
        "sampler"@ != "upscalemodel"@,
        "sampler"@ != "upscalescale"@,
        "sampler"@ != "upscaledenoise"@,
        "sampler"@ != "width"@,
        "sampler"@ != "height"@,
        "sampler"@ != "mooshie_version"@,
        "scheduler"@ != "denoise"@,
        "scheduler"@ != "generationmode"@,
        "scheduler"@ != "loras"@,
        "scheduler"@ != "upscalemodel"@,
        "scheduler"@ != "upscalescale"@,
        "scheduler"@ != "upscaledenoise"@,
        "scheduler"@ != "width"@,
        "scheduler"@ != "height"@,
        "scheduler"@ != "mooshie_version"@,
        "denoise"@ != "generationmode"@,
        "denoise"@ != "loras"@,
        "denoise"@ != "upscalemodel"@,
        "denoise"@ != "upscalescale"@,
        "denoise"@ != "upscaledenoise"@,
        "denoise"@ != "width"@,
        "denoise"@ != "height"@,
        "denoise"@ != "mooshie_version"@,
        "generationmode"@ != "loras"@,
        "generationmode"@ != "upscalemodel"@,
        "generationmode"@ != "upscalescale"@,
        "generationmode"@ != "upscaledenoise"@,
        "generationmode"@ != "width"@,
        "generationmode"@ != "height"@,
        "generationmode"@ != "mooshie_version"@,
        "loras"@ != "upscalemodel"@,
        "loras"@ != "upscalescale"@,
        "loras"@ != "upscaledenoise"@,
        "loras"@ != "width"@,
        "loras"@ != "height"@,
        "loras"@ != "mooshie_version"@,
        "upscalemodel"@ != "upscalescale"@,
        "upscalemodel"@ != "upscaledenoise"@,
        "upscalemodel"@ != "width"@,
        "upscalemodel"@ != "height"@,
        "upscalemodel"@ != "mooshie_version"@,
        "upscalescale"@ != "upscaledenoise"@,
        "upscalescale"@ != "width"@,
        "upscalescale"@ != "height"@,
        "upscalescale"@ != "mooshie_version"@,
        "upscaledenoise"@ != "width"@,
        "upscaledenoise"@ != "height"@,
        "upscaledenoise"@ != "mooshie_version"@,
        "width"@ != "height"@,
        "width"@ != "mooshie_version"@,
        "height"@ != "mooshie_version"@,
{
    reveal_strlit("prompt");
    assert("prompt"@.len() == 6);
    reveal_strlit("negativeprompt");
    assert("negativeprompt"@.len() == 14);
    reveal_strlit("model");
    assert("model"@.len() == 5);
    reveal_strlit("vae");
    assert("vae"@.len() == 3);
    reveal_strlit("seed");
    assert("seed"@.len() == 4);
    reveal_strlit("steps");
    assert("steps"@.len() == 5);
    reveal_strlit("cfgscale");
    assert("cfgscale"@.len() == 8);
    reveal_strlit("sampler");
    assert("sampler"@.len() == 7);
    reveal_strlit("scheduler");
    assert("scheduler"@.len() == 9);
    reveal_strlit("denoise");
    assert("denoise"@.len() == 7);
    reveal_strlit("generationmode");
    assert("generationmode"@.len() == 14);
    reveal_strlit("loras");
    assert("loras"@.len() == 5);
    reveal_strlit("upscalemodel");
    assert("upscalemodel"@.len() == 12);
    reveal_strlit("upscalescale");
    assert("upscalescale"@.len() == 12);
    reveal_strlit("upscaledenoise");
    assert("upscaledenoise"@.len() == 14);
    reveal_strlit("width");
    assert("width"@.len() == 5);
    reveal_strlit("height");
    assert("height"@.len() == 6);
    reveal_strlit("mooshie_version");
    assert("mooshie_version"@.len() == 15);
    assert("prompt"@[0] != "height"@[0]);
    assert("negativeprompt"@[0] != "generationmode"@[0]);
    assert("negativeprompt"@[0] != "upscaledenoise"@[0]);
    assert("model"@[0] != "steps"@[0]);
    assert("model"@[0] != "loras"@[0]);
    assert("model"@[0] != "width"@[0]);
    assert("steps"@[0] != "loras"@[0]);
    assert("steps"@[0] != "width"@[0]);
    assert("sampler"@[0] != "denoise"@[0]);
    assert("generationmode"@[0] != "upscaledenoise"@[0]);
    assert("loras"@[0] != "width"@[0]);
    assert("upscalemodel"@[7] != "upscalescale"@[7]);
}

/// The parameter names read back are pairwise distinct, and none starts with `mooshie_`.
proof fn lemma_param_names_distinct()
    ensures
        "positive_prompt"@ != "negative_prompt"@,
        "positive_prompt"@ != "model"@,
        "positive_prompt"@ != "vae"@,
        "positive_prompt"@ != "seed"@,
        "positive_prompt"@ != "steps"@,
        "positive_prompt"@ != "cfg"@,
        "positive_prompt"@ != "sampler"@,
        "positive_prompt"@ != "scheduler"@,
        "positive_prompt"@ != "denoise"@,
        "positive_prompt"@ != "mode"@,
        "positive_prompt"@ != "loras"@,
        "positive_prompt"@ != "upscale_model"@,
        "positive_prompt"@ != "upscale_scale"@,
        "positive_prompt"@ != "upscale_denoise"@,
        "positive_prompt"@ != "size"@,
        "positive_prompt"@ != "date"@,
        "positive_prompt"@ != "generation_time"@,
        "negative_prompt"@ != "model"@,
        "negative_prompt"@ != "vae"@,
        "negative_prompt"@ != "seed"@,
        "negative_prompt"@ != "steps"@,
        "negative_prompt"@ != "cfg"@,
        "negative_prompt"@ != "sampler"@,
        "negative_prompt"@ != "scheduler"@,
        "negative_prompt"@ != "denoise"@,
        "negative_prompt"@ != "mode"@,
        "negative_prompt"@ != "loras"@,
        "negative_prompt"@ != "upscale_model"@,
        "negative_prompt"@ != "upscale_scale"@,
        "negative_prompt"@ != "upscale_denoise"@,
        "negative_prompt"@ != "size"@,
        "negative_prompt"@ != "date"@,
        "negative_prompt"@ != "generation_time"@,
        "model"@ != "vae"@,
        "model"@ != "seed"@,
        "model"@ != "steps"@,
        "model"@ != "cfg"@,
        "model"@ != "sampler"@,
        "model"@ != "scheduler"@,
        "model"@ != "denoise"@,
        "model"@ != "mode"@,
        "model"@ != "loras"@,
        "model"@ != "upscale_model"@,
        "model"@ != "upscale_scale"@,
        "model"@ != "upscale_denoise"@,
        "model"@ != "size"@,
        "model"@ != "date"@,
        "model"@ != "generation_time"@,
        "vae"@ != "seed"@,
        "vae"@ != "steps"@,
        "vae"@ != "cfg"@,
        "vae"@ != "sampler"@,
        "vae"@ != "scheduler"@,
        "vae"@ != "denoise"@,
        "vae"@ != "mode"@,
        "vae"@ != "loras"@,
        "vae"@ != "upscale_model"@,
        "vae"@ != "upscale_scale"@,
        "vae"@ != "upscale_denoise"@,
        "vae"@ != "size"@,
        "vae"@ != "date"@,
        "vae"@ != "generation_time"@,
        "seed"@ != "steps"@,
        "seed"@ != "cfg"@,
        "seed"@ != "sampler"@,
        "seed"@ != "scheduler"@,
        "seed"@ != "denoise"@,
        "seed"@ != "mode"@,
        "seed"@ != "loras"@,
        "seed"@ != "upscale_model"@,
        "seed"@ != "upscale_scale"@,
        "seed"@ != "upscale_denoise"@,
        "seed"@ != "size"@,
        "seed"@ != "date"@,
        "seed"@ != "generation_time"@,
        "steps"@ != "cfg"@,
        "steps"@ != "sampler"@,
        "steps"@ != "scheduler"@,
        "steps"@ != "denoise"@,
        "steps"@ != "mode"@,
        "steps"@ != "loras"@,
        "steps"@ != "upscale_model"@,
        "steps"@ != "upscale_scale"@,
        "steps"@ != "upscale_denoise"@,
        "steps"@ != "size"@,
        "steps"@ != "date"@,
        "steps"@ != "generation_time"@,
        "cfg"@ != "sampler"@,
        "cfg"@ != "scheduler"@,
        "cfg"@ != "denoise"@,
        "cfg"@ != "mode"@,
        "cfg"@ != "loras"@,
        "cfg"@ != "upscale_model"@,
        "cfg"@ != "upscale_scale"@,
        "cfg"@ != "upscale_denoise"@,
        "cfg"@ != "size"@,
        "cfg"@ != "date"@,
        "cfg"@ != "generation_time"@,
        "sampler"@ != "scheduler"@,
        "sampler"@ != "denoise"@,
        "sampler"@ != "mode"@,
        "sampler"@ != "loras"@,
        "sampler"@ != "upscale_model"@,
        "sampler"@ != "upscale_scale"@,
        "sampler"@ != "upscale_denoise"@,
        "sampler"@ != "size"@,
        "sampler"@ != "date"@,
        "sampler"@ != "generation_time"@,
        "scheduler"@ != "denoise"@,
        "scheduler"@ != "mode"@,
        "scheduler"@ != "loras"@,
        "scheduler"@ != "upscale_model"@,
        "scheduler"@ != "upscale_scale"@,
        "scheduler"@ != "upscale_denoise"@,
        "scheduler"@ != "size"@,
        "scheduler"@ != "date"@,
        "scheduler"@ != "generation_time"@,
        "denoise"@ != "mode"@,
        "denoise"@ != "loras"@,
        "denoise"@ != "upscale_model"@,
        "denoise"@ != "upscale_scale"@,
        "denoise"@ != "upscale_denoise"@,
        "denoise"@ != "size"@,
        "denoise"@ != "date"@,
        "denoise"@ != "generation_time"@,
        "mode"@ != "loras"@,
        "mode"@ != "upscale_model"@,
        "mode"@ != "upscale_scale"@,
        "mode"@ != "upscale_denoise"@,
        "mode"@ != "size"@,
        "mode"@ != "date"@,
        "mode"@ != "generation_time"@,
        "loras"@ != "upscale_model"@,
        "loras"@ != "upscale_scale"@,
        "loras"@ != "upscale_denoise"@,
        "loras"@ != "size"@,
        "loras"@ != "date"@,
        "loras"@ != "generation_time"@,
        "upscale_model"@ != "upscale_scale"@,
        "upscale_model"@ != "upscale_denoise"@,
        "upscale_model"@ != "size"@,
        "upscale_model"@ != "date"@,
        "upscale_model"@ != "generation_time"@,
        "upscale_scale"@ != "upscale_denoise"@,
        "upscale_scale"@ != "size"@,
        "upscale_scale"@ != "date"@,
        "upscale_scale"@ != "generation_time"@,
        "upscale_denoise"@ != "size"@,
        "upscale_denoise"@ != "date"@,
        "upscale_denoise"@ != "generation_time"@,
        "size"@ != "date"@,
        "size"@ != "generation_time"@,
        "date"@ != "generation_time"@,
        !occurs_at("positive_prompt"@, "mooshie_"@, 0),
        !occurs_at("negative_prompt"@, "mooshie_"@, 0),
        !occurs_at("model"@, "mooshie_"@, 0),
        !occurs_at("vae"@, "mooshie_"@, 0),
        !occurs_at("seed"@, "mooshie_"@, 0),
        !occurs_at("steps"@, "mooshie_"@, 0),
        !occurs_at("cfg"@, "mooshie_"@, 0),
        !occurs_at("sampler"@, "mooshie_"@, 0),
        !occurs_at("scheduler"@, "mooshie_"@, 0),
        !occurs_at("denoise"@, "mooshie_"@, 0),
        !occurs_at("mode"@, "mooshie_"@, 0),
        !occurs_at("loras"@, "mooshie_"@, 0),
        !occurs_at("upscale_model"@, "mooshie_"@, 0),
        !occurs_at("upscale_scale"@, "mooshie_"@, 0),
        !occurs_at("upscale_denoise"@, "mooshie_"@, 0),
        !occurs_at("size"@, "mooshie_"@, 0),
        !occurs_at("date"@, "mooshie_"@, 0),
        !occurs_at("generation_time"@, "mooshie_"@, 0),
{
    reveal_strlit("positive_prompt");
    assert("positive_prompt"@.len() == 15);
    reveal_strlit("negative_prompt");
    assert("negative_prompt"@.len() == 15);
    reveal_strlit("model");
    assert("model"@.len() == 5);
    reveal_strlit("vae");
    assert("vae"@.len() == 3);
    reveal_strlit("seed");
    assert("seed"@.len() == 4);
    reveal_strlit("steps");
    assert("steps"@.len() == 5);
    reveal_strlit("cfg");
    assert("cfg"@.len() == 3);
    reveal_strlit("sampler");
    assert("sampler"@.len() == 7);
    reveal_strlit("scheduler");
    assert("scheduler"@.len() == 9);
    reveal_strlit("denoise");
    assert("denoise"@.len() == 7);
    reveal_strlit("mode");
    assert("mode"@.len() == 4);
    reveal_strlit("loras");
    assert("loras"@.len() == 5);
    reveal_strlit("upscale_model");
    assert("upscale_model"@.len() == 13);
    reveal_strlit("upscale_scale");
    assert("upscale_scale"@.len() == 13);
    reveal_strlit("upscale_denoise");
    assert("upscale_denoise"@.len() == 15);
    reveal_strlit("size");
    assert("size"@.len() == 4);
    reveal_strlit("date");
    assert("date"@.len() == 4);
    reveal_strlit("generation_time");
    assert("generation_time"@.len() == 15);
    reveal_strlit("mooshie_");
    assert("mooshie_"@.len() == 8);
    assert("positive_prompt"@[0] != "negative_prompt"@[0]);
    assert("positive_prompt"@[0] != "upscale_denoise"@[0]);
    assert("positive_prompt"@[0] != "generation_time"@[0]);
    assert("negative_prompt"@[0] != "upscale_denoise"@[0]);
    assert("negative_prompt"@[0] != "generation_time"@[0]);
    assert("model"@[0] != "steps"@[0]);
    assert("model"@[0] != "loras"@[0]);
    assert("vae"@[0] != "cfg"@[0]);
    assert("seed"@[0] != "mode"@[0]);
    assert("seed"@[1] != "size"@[1]);
    assert("seed"@[0] != "date"@[0]);
    assert("steps"@[0] != "loras"@[0]);
    assert("sampler"@[0] != "denoise"@[0]);
    assert("mode"@[0] != "size"@[0]);
    assert("mode"@[0] != "date"@[0]);
    assert("upscale_model"@[8] != "upscale_scale"@[8]);
    assert("upscale_denoise"@[0] != "generation_time"@[0]);
    assert("size"@[0] != "date"@[0]);
    assert("positive_prompt"@.subrange(0, 8)[0] != "mooshie_"@[0]);
    assert("negative_prompt"@.subrange(0, 8)[0] != "mooshie_"@[0]);
    assert("scheduler"@.subrange(0, 8)[0] != "mooshie_"@[0]);
    assert("upscale_model"@.subrange(0, 8)[0] != "mooshie_"@[0]);
    assert("upscale_scale"@.subrange(0, 8)[0] != "mooshie_"@[0]);
    assert("upscale_denoise"@.subrange(0, 8)[0] != "mooshie_"@[0]);
    assert("generation_time"@.subrange(0, 8)[0] != "mooshie_"@[0]);
}

/// What the image object holds under each SwarmUI name.
#[verifier::rlimit(100)]
#[verifier::spinoff_prover]
proof fn lemma_image_facts(p: Params, version: Seq<char>, img: ObjView)
    requires
        img == image_of(p, version),
    ensures
            img.contains_key("prompt"@) == (p.contains_key("positive_prompt"@) && p["positive_prompt"@].len() > 0),
            img.contains_key("prompt"@) ==> img["prompt"@] == (JsonKind::Str, p["positive_prompt"@]),
            img.contains_key("negativeprompt"@) == (p.contains_key("negative_prompt"@) && p["negative_prompt"@].len() > 0),
            img.contains_key("negativeprompt"@) ==> img["negativeprompt"@] == (JsonKind::Str, p["negative_prompt"@]),
            img.contains_key("model"@) == (p.contains_key("model"@) && p["model"@].len() > 0),
            img.contains_key("model"@) ==> img["model"@] == (JsonKind::Str, p["model"@]),
            img.contains_key("vae"@) == (p.contains_key("vae"@) && p["vae"@].len() > 0),
            img.contains_key("vae"@) ==> img["vae"@] == (JsonKind::Str, p["vae"@]),
            img.contains_key("seed"@) == (p.contains_key("seed"@) && p["seed"@].len() > 0),
            img.contains_key("seed"@) ==> img["seed"@] == (JsonKind::Str, p["seed"@]),
            img.contains_key("steps"@) == (p.contains_key("steps"@) && p["steps"@].len() > 0),
            img.contains_key("steps"@) ==> img["steps"@] == (JsonKind::Str, p["steps"@]),
            img.contains_key("cfgscale"@) == (p.contains_key("cfg"@) && p["cfg"@].len() > 0),
            img.contains_key("cfgscale"@) ==> img["cfgscale"@] == (JsonKind::Str, p["cfg"@]),
            img.contains_key("sampler"@) == (p.contains_key("sampler"@) && p["sampler"@].len() > 0),
            img.contains_key("sampler"@) ==> img["sampler"@] == (JsonKind::Str, p["sampler"@]),
            img.contains_key("scheduler"@) == (p.contains_key("scheduler"@) && p["scheduler"@].len() > 0),
            img.contains_key("scheduler"@) ==> img["scheduler"@] == (JsonKind::Str, p["scheduler"@]),
            img.contains_key("denoise"@) == (p.contains_key("denoise"@) && p["denoise"@].len() > 0),
            img.contains_key("denoise"@) ==> img["denoise"@] == (JsonKind::Str, p["denoise"@]),
            img.contains_key("generationmode"@) == (p.contains_key("mode"@) && p["mode"@].len() > 0),
            img.contains_key("generationmode"@) ==> img["generationmode"@] == (JsonKind::Str, p["mode"@]),
            img.contains_key("loras"@) == (p.contains_key("loras"@) && p["loras"@].len() > 0),
            img.contains_key("loras"@) ==> img["loras"@] == (JsonKind::Str, p["loras"@]),
            img.contains_key("upscalemodel"@) == (p.contains_key("upscale_model"@) && p["upscale_model"@].len() > 0),
            img.contains_key("upscalemodel"@) ==> img["upscalemodel"@] == (JsonKind::Str, p["upscale_model"@]),
            img.contains_key("upscalescale"@) == (p.contains_key("upscale_scale"@) && p["upscale_scale"@].len() > 0),
            img.contains_key("upscalescale"@) ==> img["upscalescale"@] == (JsonKind::Str, p["upscale_scale"@]),
            img.contains_key("upscaledenoise"@) == (p.contains_key("upscale_denoise"@) && p["upscale_denoise"@].len() > 0),
            img.contains_key("upscaledenoise"@) ==> img["upscaledenoise"@] == (JsonKind::Str, p["upscale_denoise"@]),
        (img.contains_key("width"@) && img.contains_key("height"@)) == (p.contains_key("size"@) && size_dims(p["size"@]) is Some),
        (p.contains_key("size"@) && size_dims(p["size"@]) is Some) ==> img["width"@] == (JsonKind::Number, decimal(dims_w(p["size"@]) as nat))
            && img["height"@] == (JsonKind::Number, decimal(dims_h(p["size"@]) as nat)),
{
    reveal_strlit("positive_prompt");
    reveal_strlit("negative_prompt");
    reveal_strlit("model");
    reveal_strlit("vae");
    reveal_strlit("seed");
    reveal_strlit("steps");
    reveal_strlit("cfg");
    reveal_strlit("sampler");
    reveal_strlit("scheduler");
    reveal_strlit("denoise");
    reveal_strlit("mode");
    reveal_strlit("loras");
    reveal_strlit("upscale_model");
    reveal_strlit("upscale_scale");
    reveal_strlit("upscale_denoise");
    reveal_strlit("prompt");
    reveal_strlit("negativeprompt");
    reveal_strlit("cfgscale");
    reveal_strlit("generationmode");
    reveal_strlit("upscalemodel");
    reveal_strlit("upscalescale");
    reveal_strlit("upscaledenoise");
    reveal_strlit("width");
    reveal_strlit("height");
    reveal_strlit("mooshie_version");
    reveal_strlit("size");
    reveal_strlit("date");
    reveal_strlit("generation_time");
    reveal_strlit("mooshie_");
    reveal_strlit("software");
    lemma_swarm_names_distinct();
    reveal_with_fuel(put_all, 16);
    let names = image_names();
    assert(names[0] == ("positive_prompt"@, "prompt"@));
    assert(names[1] == ("negative_prompt"@, "negativeprompt"@));
    assert(names[2] == ("model"@, "model"@));
    assert(names[3] == ("vae"@, "vae"@));
    assert(names[4] == ("seed"@, "seed"@));
    assert(names[5] == ("steps"@, "steps"@));
    assert(names[6] == ("cfg"@, "cfgscale"@));
    assert(names[7] == ("sampler"@, "sampler"@));
    assert(names[8] == ("scheduler"@, "scheduler"@));
    assert(names[9] == ("denoise"@, "denoise"@));
    assert(names[10] == ("mode"@, "generationmode"@));
    assert(names[11] == ("loras"@, "loras"@));
    assert(names[12] == ("upscale_model"@, "upscalemodel"@));
    assert(names[13] == ("upscale_scale"@, "upscalescale"@));
    assert(names[14] == ("upscale_denoise"@, "upscaledenoise"@));
    assert(names.skip(12) =~= seq![names[12], names[13], names[14]]);
}

/// The named parameters read back from the image object.
#[verifier::rlimit(60)]
#[verifier::spinoff_prover]
proof fn lemma_named_back(p: Params, version: Seq<char>, q1: Params)
    requires
        q1 == get_all(Map::empty(), image_of(p, version), image_names(), 15),
    ensures
        forall|k: Seq<char>| #[trigger] q1.dom().contains(k) <==> (named_param(k) && p.contains_key(k) && p[k].len() > 0),
        forall|k: Seq<char>| #[trigger] q1.dom().contains(k) ==> q1[k] == p[k],
{
    reveal_strlit("positive_prompt");
    reveal_strlit("negative_prompt");
    reveal_strlit("model");
    reveal_strlit("vae");
    reveal_strlit("seed");
    reveal_strlit("steps");
    reveal_strlit("cfg");
    reveal_strlit("sampler");
    reveal_strlit("scheduler");
    reveal_strlit("denoise");
    reveal_strlit("mode");
    reveal_strlit("loras");
    reveal_strlit("upscale_model");
    reveal_strlit("upscale_scale");
    reveal_strlit("upscale_denoise");
    reveal_strlit("prompt");
    reveal_strlit("negativeprompt");
    reveal_strlit("cfgscale");
    reveal_strlit("generationmode");
    reveal_strlit("upscalemodel");
    reveal_strlit("upscalescale");
    reveal_strlit("upscaledenoise");
    reveal_strlit("width");
    reveal_strlit("height");
    reveal_strlit("mooshie_version");
    reveal_strlit("size");
    reveal_strlit("date");
    reveal_strlit("generation_time");
    reveal_strlit("mooshie_");
    reveal_strlit("software");
    lemma_param_names_distinct();
    lemma_image_facts(p, version, image_of(p, version));
    reveal_with_fuel(get_all, 16);
    let names = image_names();
    assert(names[0] == ("positive_prompt"@, "prompt"@));
    assert(names[1] == ("negative_prompt"@, "negativeprompt"@));
    assert(names[2] == ("model"@, "model"@));
    assert(names[3] == ("vae"@, "vae"@));
    assert(names[4] == ("seed"@, "seed"@));
    assert(names[5] == ("steps"@, "steps"@));
    assert(names[6] == ("cfg"@, "cfgscale"@));
    assert(names[7] == ("sampler"@, "sampler"@));
    assert(names[8] == ("scheduler"@, "scheduler"@));
    assert(names[9] == ("denoise"@, "denoise"@));
    assert(names[10] == ("mode"@, "generationmode"@));
    assert(names[11] == ("loras"@, "loras"@));
    assert(names[12] == ("upscale_model"@, "upscalemodel"@));
    assert(names[13] == ("upscale_scale"@, "upscalescale"@));
    assert(names[14] == ("upscale_denoise"@, "upscaledenoise"@));
}

/// The `mooshie_` parameters read back from `mooshie_extra`.
proof fn lemma_mooshie_back(p: Params)
    ensures
        forall|x: Seq<char>| #![auto] mooshie_back(mooshie_of(p)).dom().contains(x) <==> (occurs_at(x, "mooshie_"@, 0)
            && x.skip(8) != "software"@ && p.contains_key(x) && p[x].len() > 0),
        forall|x: Seq<char>| #![auto] mooshie_back(mooshie_of(p)).dom().contains(x) ==> mooshie_back(mooshie_of(p))[x] == p[x],
{
    reveal_strlit("mooshie_");
    assert("mooshie_"@.len() == 8);
    let mb = mooshie_back(mooshie_of(p));
    assert forall|x: Seq<char>| #![auto] mb.dom().contains(x) <==> (occurs_at(x, "mooshie_"@, 0) && x.skip(8)
        != "software"@ && p.contains_key(x) && p[x].len() > 0) by {
        if occurs_at(x, "mooshie_"@, 0) {
            assert(x.subrange(0, 8) == "mooshie_"@);
            assert(x =~= "mooshie_"@ + x.skip(8));
        }
    }
    assert forall|x: Seq<char>| #![auto] mb.dom().contains(x) implies mb[x] == p[x] by {
        assert(x.subrange(0, 8) == "mooshie_"@);
        assert(x =~= "mooshie_"@ + x.skip(8));
    }
}

/// Writing the parameters as a document and reading it back gives the
/// parameters that survive the trip: the named ones, the date and the
/// generation time when not empty, a parsable size in plain decimal, and the
/// non-empty `mooshie_` ones but `mooshie_software`.
pub proof fn law_swarm_round_trip(p: Params, version: Seq<char>)
    ensures
        params_of(doc_of(p, version)) == round_trip_params(p),
{
    let doc = doc_of(p, version);
    let img = doc.0;
    let extra = doc.1;
    let q1 = get_all(Map::empty(), img, image_names(), 15);
    lemma_param_names_distinct();
    lemma_image_facts(p, version, img);
    lemma_named_back(p, version, q1);
    lemma_mooshie_back(p);
    let q = params_of(doc);
    let r = round_trip_params(p);
    if p.contains_key("size"@) && size_dims(p["size"@]) is Some {
        lemma_decimal_nonempty(dims_w(p["size"@]) as nat);
        lemma_decimal_nonempty(dims_h(p["size"@]) as nat);
    }
    assert(extra.contains_key("date"@) == (p.contains_key("date"@) && p["date"@].len() > 0));
    assert(extra.contains_key("date"@) ==> extra["date"@] == (JsonKind::Str, p["date"@]));
    assert(extra.contains_key("generation_time"@) == (p.contains_key("generation_time"@)
        && p["generation_time"@].len() > 0));
    assert(extra.contains_key("generation_time"@) ==> extra["generation_time"@] == (JsonKind::Str,
        p["generation_time"@]));
    let mb = mooshie_back(mooshie_of(p));
    let q2 = if img.contains_key("width"@) && img.contains_key("height"@) && dim_text(img["width"@]).len() > 0
        && dim_text(img["height"@]).len() > 0 {
        q1.insert("size"@, dim_text(img["width"@]) + "x"@ + dim_text(img["height"@]))
    } else {
        q1
    };
    let size_ok = p.contains_key("size"@) && size_dims(p["size"@]) is Some;
    assert(img == image_of(p, version));
    assert(size_ok ==> img.contains_key("width"@) && img.contains_key("height"@));
    assert(size_ok ==> img["width"@] == (JsonKind::Number, decimal(dims_w(p["size"@]) as nat)));
    assert(size_ok ==> dim_text(img["width"@]) == decimal(dims_w(p["size"@]) as nat));
    assert(size_ok ==> dim_text(img["width"@]).len() > 0);
    assert(size_ok ==> dim_text(img["height"@]).len() > 0);
    assert(!named_param("size"@));
    assert(!named_param("date"@));
    assert(!named_param("generation_time"@));
    assert(!q1.dom().contains("size"@));
    assert(q2.dom().contains("size"@) == size_ok);
    assert forall|k: Seq<char>| #![auto] q2.dom().contains(k) <==> ((named_param(k) && p.contains_key(k) && p[k].len() > 0)
        || (k == "size"@ && size_ok)) by {
    }
    assert forall|k: Seq<char>| #![auto] q.dom().contains(k) ==> r.dom().contains(k) by {
        if occurs_at(k, "mooshie_"@, 0) {
            assert(!named_param(k));
        }
    }
    assert forall|k: Seq<char>| #![auto] r.dom().contains(k) ==> q.dom().contains(k) by {
        if occurs_at(k, "mooshie_"@, 0) {
            assert(!named_param(k));
        }
    }
    assert forall|k: Seq<char>| #![auto] q.dom().contains(k) implies q[k] == r[k] by {
        if occurs_at(k, "mooshie_"@, 0) {
            assert(!named_param(k));
        }
    }
    assert(q =~= r);
}

/// The decimal text of a number: digits only, reading back as the number.
proof fn lemma_decimal_digits(n: nat)
    ensures
        all_digits(decimal(n)),
        digits_value(decimal(n)) == n,
        decimal(n).len() > 0,
        decimal(n)[0] != '+',
    decreases n,
{
    if n >= 10 {
        lemma_decimal_digits(n / 10);
        let d = decimal(n);
        let c = (('0' as int) + (n % 10)) as char;
        assert(d.drop_last() =~= decimal(n / 10));
        assert(d.last() == c);
        assert(all_digits(d)) by {
            assert forall|j: int| 0 <= j < d.len() implies '0' <= #[trigger] d[j] && d[j] <= '9' by {
                if j < d.len() - 1 {
                    assert(d[j] == decimal(n / 10)[j]);
                }
            }
        }
        assert((n / 10) * 10 + n % 10 == n) by (nonlinear_arith);
        assert(c as int == ('0' as int) + n % 10);
        assert(digits_value(d) == digits_value(d.drop_last()) * 10 + (d.last() as int - '0' as int));
        assert(d[0] == decimal(n / 10)[0]);
    } else {
        let d = decimal(n);
        assert(d.drop_last() =~= Seq::<char>::empty());
        assert(d.last() as int == ('0' as int) + n);
        assert(digits_value(d) == digits_value(d.drop_last()) * 10 + (d.last() as int - '0' as int));
    }
}

/// The size text `<w>x<h>` in plain decimal parses back as `(w, h)`.
proof fn lemma_size_text(w: u32, h: u32)
    ensures
        size_dims(decimal(w as nat) + "x"@ + decimal(h as nat)) == Some((w, h)),
{
    lemma_decimal_digits(w as nat);
    lemma_decimal_digits(h as nat);
    let a = decimal(w as nat);
    let b = decimal(h as nat);
    reveal_strlit("x");
    let s = a + "x"@ + b;
    lemma_char_pos(s, 'x');
    assert(s[a.len() as int] == 'x');
    assert forall|j: int| 0 <= j < a.len() implies s[j] != 'x' by {
        assert(s[j] == a[j]);
        assert('0' <= a[j] <= '9');
    }
    assert(char_pos(s, 'x') == Some(a.len() as int));
    assert(s.take(a.len() as int) =~= a);
    assert(s.skip(a.len() as int + 1) =~= b);
}

/// Law: parameters that hold only what a write and a read carry over — named
/// parameters, the date, the generation time and `mooshie_<k>` parameters
/// other than `mooshie_software`, all non-empty, and a size written as
/// `<width>x<height>` in plain decimal — come back unchanged.
pub proof fn law_swarm_round_trip_exact(p: Params, version: Seq<char>)
    requires
        forall|k: Seq<char>| #[trigger] p.contains_key(k) ==> k == "size"@ || ((named_param(k) || k == "date"@
            || k == "generation_time"@ || (occurs_at(k, "mooshie_"@, 0) && k.skip(8) != "software"@))
            && p[k].len() > 0),
        p.contains_key("size"@) ==> exists|w: u32, h: u32| p["size"@] == decimal(w as nat) + "x"@ + decimal(h as nat),
    ensures
        params_of(doc_of(p, version)) == p,
{
    law_swarm_round_trip(p, version);
    if p.contains_key("size"@) {
        let (w, h) = choose|w: u32, h: u32| p["size"@] == decimal(w as nat) + "x"@ + decimal(h as nat);
        lemma_size_text(w, h);
    }
    let r = round_trip_params(p);
    assert forall|k: Seq<char>| #[trigger] r.contains_key(k) <==> p.contains_key(k) by {
        if p.contains_key(k) && k == "size"@ {
            assert(kept_param(p, k));
        }
    }
    assert(r =~= p);
}

} // verus!
