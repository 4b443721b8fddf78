//! Required ComfyUI custom nodes: the missing-nodes error text and its
//! parsing, the classification of server errors shown to the user, and the
//! `netstat` line that names the process listening on a port.
use vstd::prelude::*;
use crate::text::{
    chars_of, find_chars, find, char_pos, split_chars, split_char, trim_chars, trim, trim_start, push_str,
    string_of, contains, str_contains, lemma_char_pos, lemma_find_from, parse_u32, parse_u32_chars, is_ws,
    char_is_ws, ws_prefix_len, ws_suffix_len, trim_end, occurs_at, lines,
};

verus! {

/// Substring present in [`format_missing_mooshie_nodes_error`] output.
pub open spec fn mooshie_marker() -> Seq<char> {
    "has not loaded required MooshieUI custom nodes"@
}

/// Substring present in the missing ControlNet nodes error.
pub open spec fn controlnet_marker() -> Seq<char> {
    "Required ControlNet custom nodes failed to load"@
}

/// The marker of the missing MooshieUI nodes error.
pub fn missing_mooshie_nodes_marker() -> (s: &'static str)
    ensures
        s@ == mooshie_marker(),
{
    "has not loaded required MooshieUI custom nodes"
}

/// The marker of the missing ControlNet nodes error.
pub fn missing_controlnet_nodes_marker() -> (s: &'static str)
    ensures
        s@ == controlnet_marker(),
{
    "Required ControlNet custom nodes failed to load"
}

/// The MooshieUI node classes every generated workflow needs.
pub fn required_mooshie_node_classes() -> (v: Vec<&'static str>)
    ensures
        v@.len() == 6,
{
    vec!["MooshieSaveImage", "MooshieFaceDetailer", "MooshieSoftGuidance", "MooshieSmartGuidance",
        "NanoSaurLoader", "ApplyTiledDiffusion"]
}

/// A custom-node package the ControlNet presets need.
pub struct RequiredCustomNodePackage {
    pub name: &'static str,
    pub git_url: &'static str,
    pub verify_nodes: Vec<&'static str>,
}

/// The custom-node packages the built-in ControlNet presets need.
pub fn required_controlnet_packages() -> (v: Vec<RequiredCustomNodePackage>)
    ensures
        v@.len() == 2,
{
    vec![
        RequiredCustomNodePackage {
            name: "comfyui_controlnet_aux",
            git_url: "https://github.com/Fannovel16/comfyui_controlnet_aux.git",
            verify_nodes: vec!["CannyEdgePreprocessor", "DepthAnythingV2Preprocessor", "OpenposePreprocessor",
                "LineArtPreprocessor", "ScribblePreprocessor", "HEDPreprocessor", "FakeScribblePreprocessor"],
        },
        RequiredCustomNodePackage {
            name: "ComfyUI-Anima-LLLite",
            git_url: "https://github.com/kohya-ss/ComfyUI-Anima-LLLite.git",
            verify_nodes: vec!["AnimaLLLiteApply"],
        },
    ]
}

/// `v` joined with `sep` between consecutive items.
pub open spec fn join(v: Seq<Seq<char>>, sep: Seq<char>) -> Seq<char>
    decreases v.len(),
{
    if v.len() == 0 {
        Seq::empty()
    } else if v.len() == 1 {
        v[0]
    } else {
        join(v.drop_last(), sep) + sep + v.last()
    }
}

/// Join strings with a separator.
pub fn join_strings(v: &Vec<String>, sep: &str) -> (r: String)
    ensures
        r@ == join(v@.map_values(|s: String| s@), sep@),
{
    let ghost vv = v@.map_values(|s: String| s@);
    let mut r = String::new();
    let mut i: usize = 0;
    while i < v.len()
        invariant
            i <= v@.len(),
            vv == v@.map_values(|s: String| s@),
            r@ == join(vv.take(i as int), sep@),
        decreases v@.len() - i,
    {
        if i > 0 {
            push_str(&mut r, sep);
        }
        push_str(&mut r, v[i].as_str());
        proof {
            assert(vv.take(i + 1).drop_last() =~= vv.take(i as int));
            if i == 0 {
                assert(vv.take(0) =~= Seq::<Seq<char>>::empty());
            }
        }
        i += 1;
    }
    assert(vv.take(v@.len() as int) =~= vv);
    r
}

/// The start of the missing-nodes message, up to its marker.
pub open spec fn missing_nodes_head() -> Seq<char> {
    "This ComfyUI server "@
}

/// The advice that follows the list of missing nodes.
pub open spec fn missing_nodes_advice() -> Seq<char> {
    ". If MooshieUI just installed or updated the nodes, fully stop ComfyUI/python.exe, then start MooshieUI again so the custom nodes load. If this is a remote or external ComfyUI server, install the MooshieUI custom nodes there and restart that server."@
}

/// The heading put before an appended log excerpt.
pub open spec fn log_heading() -> Seq<char> {
    "\n\nComfyUI log (last lines):\n"@
}

/// The user-facing missing-nodes error for the node classes `missing`,
/// followed by the ComfyUI log excerpt when there is one.
pub open spec fn missing_nodes_message(missing: Seq<Seq<char>>, log_tail: Option<Seq<char>>) -> Seq<char> {
    missing_nodes_head() + mooshie_marker() + ": "@ + join(missing, ", "@) + missing_nodes_advice()
        + match log_tail {
            Some(l) => log_heading() + l,
            None => Seq::empty(),
        }
}

/// Build the user-facing missing-nodes error, with the last lines of the
/// ComfyUI log when they could be read.
pub fn format_missing_mooshie_nodes_error(missing: &Vec<String>, log_tail: Option<&str>) -> (msg: String)
    ensures
        msg@ == missing_nodes_message(missing@.map_values(|s: String| s@), match log_tail {
            Some(l) => Some(l@),
            None => None,
        }),
{
    let mut msg = String::from_str("This ComfyUI server ");
    push_str(&mut msg, missing_mooshie_nodes_marker());
    push_str(&mut msg, ": ");
    let joined = join_strings(missing, ", ");
    push_str(&mut msg, joined.as_str());
    push_str(&mut msg,
        ". If MooshieUI just installed or updated the nodes, fully stop ComfyUI/python.exe, then start MooshieUI again so the custom nodes load. If this is a remote or external ComfyUI server, install the MooshieUI custom nodes there and restart that server.");
    match log_tail {
        Some(l) => {
            push_str(&mut msg, "\n\nComfyUI log (last lines):\n");
            push_str(&mut msg, l);
        },
        None => {},
    }
    msg
}

/// Whether a message is the missing MooshieUI nodes error.
pub fn is_missing_mooshie_nodes_error(message: &str) -> (r: bool)
    ensures
        r == contains(message@, mooshie_marker()),
{
    str_contains(message, missing_mooshie_nodes_marker())
}

/// The node class names listed in a missing-nodes error: the text after the
/// marker's colon, up to the first `.`, split at commas, trimmed, empty
/// entries dropped. No marker or no colon gives no names.
pub open spec fn missing_nodes_in(m: Seq<char>) -> Seq<Seq<char>> {
    match find(m, mooshie_marker()) {
        None => Seq::empty(),
        Some(st) => {
            let rest = m.skip(st + mooshie_marker().len());
            match char_pos(rest, ':') {
                None => Seq::empty(),
                Some(c) => {
                    let after = trim_start(rest.skip(c + 1));
                    let end = match char_pos(after, '.') {
                        Some(e) => e,
                        None => after.len() as int,
                    };
                    split_char(after.take(end), ',').map_values(|p: Seq<char>| trim(p)).filter(
                        |p: Seq<char>| p.len() > 0)
                },
            }
        },
    }
}

fn copy_range(v: &Vec<char>, from: usize, to: usize) -> (r: Vec<char>)
    requires
        from <= to <= v@.len(),
    ensures
        r@ == v@.subrange(from as int, to as int),
{
    let mut r: Vec<char> = Vec::new();
    let mut i = from;
    while i < to
        invariant
            from <= i <= to,
            to <= v@.len(),
            r@ == v@.subrange(from as int, i as int),
        decreases to - i,
    {
        r.push(v[i]);
        assert(v@.subrange(from as int, i + 1) =~= v@.subrange(from as int, i as int).push(v@[i as int]));
        i += 1;
    }
    r
}

fn char_index(v: &Vec<char>, c: char, from: usize) -> (r: Option<usize>)
    requires
        from <= v@.len(),
    ensures
        match r {
            Some(i) => char_pos(v@.skip(from as int), c) == Some(i - from) && from <= i,
            None => char_pos(v@.skip(from as int), c) is None,
        },
{
    let ghost rest = v@.skip(from as int);
    proof {
        lemma_char_pos(rest, c);
    }
    let mut i = from;
    while i < v.len()
        invariant
            from <= i <= v@.len(),
            rest == v@.skip(from as int),
            forall|j: int| from <= j < i ==> v@[j] != c,
        decreases v@.len() - i,
    {
        if v[i] == c {
            proof {
                lemma_char_pos(rest, c);
                let k = i - from;
                assert(rest[k as int] == c);
                if char_pos(rest, c) is None {
                    assert(rest[k as int] != c);
                } else {
                    let k2 = char_pos(rest, c)->0;
                    if k2 < k {
                        assert(rest[k2] == v@[from + k2]);
                    } else if k2 > k {
                        assert(rest[k as int] != c);
                    }
                }
            }
            return Some(i);
        }
        i += 1;
    }
    proof {
        lemma_char_pos(rest, c);
        if char_pos(rest, c) is Some {
            let k = char_pos(rest, c)->0;
            assert(rest[k] == v@[from + k]);
        }
    }
    None
}

/// Parse missing node class names from a formatted missing-nodes error (see
/// [`missing_nodes_in`]).
pub fn parse_missing_nodes_from_error(message: &str) -> (r: Vec<String>)
    ensures
        r@.map_values(|s: String| s@) == missing_nodes_in(message@),
{
    let m = chars_of(message);
    let ml = m.len();
    let marker = chars_of(missing_mooshie_nodes_marker());
    let start = match find_chars(&m, &marker, 0) {
        Some(s) => s,
        None => {
            let r: Vec<String> = Vec::new();
            assert(r@.map_values(|s: String| s@) =~= Seq::<Seq<char>>::empty());
            return r;
        },
    };
    proof {
        lemma_find_from(m@, marker@, 0);
    }
    let after_marker = start + marker.len();
    let colon = match char_index(&m, ':', after_marker) {
        Some(c) => c,
        None => {
            let r: Vec<String> = Vec::new();
            assert(r@.map_values(|s: String| s@) =~= Seq::<Seq<char>>::empty());
            return r;
        },
    };
    let ghost rest = m@.skip(after_marker as int);
    proof {
        lemma_char_pos(rest, ':');
    }
    assert(rest.skip(colon - after_marker + 1) =~= m@.skip(colon + 1));
    // Skip leading white space after the colon.
    let mut a = colon + 1;
    while a < m.len() && char_is_ws(m[a])
        invariant
            colon + 1 <= a <= m@.len(),
            forall|i: int| colon + 1 <= i < a ==> is_ws(m@[i]),
        decreases m@.len() - a,
    {
        a += 1;
    }
    let ghost tail = m@.skip(colon + 1);
    proof {
        crate::text::lemma_ws_prefix(tail);
        assert(crate::text::ws_prefix_len(tail) == a - colon - 1) by {
            if crate::text::ws_prefix_len(tail) < a - colon - 1 {
                assert(is_ws(tail[crate::text::ws_prefix_len(tail) as int]));
            } else if crate::text::ws_prefix_len(tail) > a - colon - 1 {
                assert(is_ws(tail[a - colon - 1]));
            }
        }
        assert(trim_start(tail) =~= m@.skip(a as int));
    }
    proof {
        lemma_char_pos(m@.skip(a as int), '.');
    }
    let end = match char_index(&m, '.', a) {
        Some(e) => e,
        None => m.len(),
    };
    let list = copy_range(&m, a, end);
    assert(list@ =~= m@.skip(a as int).take(end - a));
    let pieces = split_chars(&list, ',');
    let ghost pv = pieces@.map_values(|s: String| s@);
    let ghost trimmed = pv.map_values(|p: Seq<char>| trim(p));
    let mut out: Vec<String> = Vec::new();
    let mut i: usize = 0;
    while i < pieces.len()
        invariant
            i <= pieces@.len(),
            pv == pieces@.map_values(|s: String| s@),
            trimmed == pv.map_values(|p: Seq<char>| trim(p)),
            out@.map_values(|s: String| s@) == trimmed.take(i as int).filter(|p: Seq<char>| p.len() > 0),
        decreases pieces@.len() - i,
    {
        let pc = chars_of(pieces[i].as_str());
        let t = trim_chars(&pc, 0, pc.len());
        proof {
            assert(pc@.subrange(0, pc@.len() as int) =~= pc@);
            assert(trimmed.take(i + 1).drop_last() =~= trimmed.take(i as int));
            trimmed.take(i as int).lemma_filter_push(trimmed[i as int], |p: Seq<char>| p.len() > 0);
            assert(trimmed.take(i + 1) =~= trimmed.take(i as int).push(trimmed[i as int]));
        }
        if pc.len() > 0 && t.unicode_len() > 0 {
            let ghost before = out@;
            out.push(t);
            assert(out@.map_values(|s: String| s@) =~= before.map_values(|s: String| s@).push(t@));
        } else {
            proof {
                if pc@.len() == 0 {
                    assert(trim(pc@).len() == 0);
                }
            }
        }
        i += 1;
    }
    assert(trimmed.take(pieces@.len() as int) =~= trimmed);
    out
}

/// A node class name that survives being listed in the missing-nodes error:
/// not empty, no white space at either end, and neither `,` nor `.` in it.
pub open spec fn plain_name(n: Seq<char>) -> bool {
    &&& n.len() > 0
    &&& !is_ws(n[0])
    &&& !is_ws(n.last())
    &&& forall|i: int| 0 <= i < n.len() ==> n[i] != ',' && n[i] != '.'
}

proof fn lemma_split_no_sep(s: Seq<char>, sep: char)
    requires
        forall|i: int| 0 <= i < s.len() ==> s[i] != sep,
    ensures
        split_char(s, sep) == seq![s],
{
    lemma_char_pos(s, sep);
    if char_pos(s, sep) is Some {
        let k = char_pos(s, sep)->0;
        assert(s[k] != sep);
    }
}

/// Splitting at a separator placed between `a` and `b` splits `a` and `b`
/// apart.
proof fn lemma_split_append(a: Seq<char>, b: Seq<char>, sep: char)
    ensures
        split_char(a + seq![sep] + b, sep) == split_char(a, sep) + split_char(b, sep),
    decreases a.len(),
{
    let s = a + seq![sep] + b;
    lemma_char_pos(a, sep);
    lemma_char_pos(s, sep);
    let i: int = match char_pos(a, sep) {
        Some(i) => i,
        None => a.len() as int,
    };
    assert(s[i] == sep);
    assert forall|j: int| 0 <= j < i implies s[j] != sep by {
        assert(s[j] == a[j]);
    }
    assert(char_pos(s, sep) == Some(i)) by {
        if char_pos(s, sep) is None {
            assert(s[i] != sep);
        } else {
            let k = char_pos(s, sep)->0;
            if k < i {
                assert(s[k] != sep);
            } else if k > i {
                assert(s[i] != sep);
            }
        }
    }
    match char_pos(a, sep) {
        None => {
            assert(s.take(i) =~= a);
            assert(s.skip(i + 1) =~= b);
        },
        Some(_) => {
            let a2 = a.skip(i + 1);
            assert(s.take(i) =~= a.take(i));
            assert(s.skip(i + 1) =~= a2 + seq![sep] + b);
            lemma_split_append(a2, b, sep);
            assert(split_char(a, sep) == seq![a.take(i)] + split_char(a2, sep));
            assert(split_char(s, sep) == seq![a.take(i)] + split_char(a2 + seq![sep] + b, sep));
            assert(seq![a.take(i)] + (split_char(a2, sep) + split_char(b, sep))
                =~= (seq![a.take(i)] + split_char(a2, sep)) + split_char(b, sep));
        },
    }
}

proof fn lemma_join_no_char(v: Seq<Seq<char>>, sep: Seq<char>, c: char)
    requires
        forall|i: int, k: int| 0 <= i < v.len() && 0 <= k < v[i].len() ==> #[trigger] v[i][k] != c,
        forall|k: int| 0 <= k < sep.len() ==> sep[k] != c,
    ensures
        forall|k: int| 0 <= k < join(v, sep).len() ==> #[trigger] join(v, sep)[k] != c,
    decreases v.len(),
{
    if v.len() >= 2 {
        let d = v.drop_last();
        assert forall|i: int, k: int| 0 <= i < d.len() && 0 <= k < d[i].len() implies #[trigger] d[i][k] != c by {
            assert(d[i] == v[i]);
        }
        lemma_join_no_char(d, sep, c);
        let j = join(v, sep);
        let jd = join(d, sep);
        assert forall|k: int| 0 <= k < j.len() implies #[trigger] j[k] != c by {
            if k < jd.len() {
                assert(j[k] == jd[k]);
            } else if k < jd.len() + sep.len() {
                assert(j[k] == sep[k - jd.len()]);
            } else {
                assert(j[k] == v.last()[k - jd.len() - sep.len()]);
                assert(v[v.len() - 1][k - jd.len() - sep.len()] != c);
            }
        }
    } else if v.len() == 1 {
        assert forall|k: int| 0 <= k < join(v, sep).len() implies #[trigger] join(v, sep)[k] != c by {
            assert(v[0][k] != c);
        }
    }
}

proof fn lemma_join_first(v: Seq<Seq<char>>, sep: Seq<char>)
    requires
        v.len() > 0,
    ensures
        join(v, sep).len() >= v[0].len(),
        forall|k: int| 0 <= k < v[0].len() ==> #[trigger] join(v, sep)[k] == v[0][k],
    decreases v.len(),
{
    if v.len() >= 2 {
        let d = v.drop_last();
        lemma_join_first(d, sep);
        assert(d[0] == v[0]);
        assert forall|k: int| 0 <= k < v[0].len() implies #[trigger] join(v, sep)[k] == v[0][k] by {
            assert(join(v, sep)[k] == join(d, sep)[k]);
        }
    }
}

/// The pieces of a list of plain names joined with `", "` and split at
/// commas: the first name, then each further name after one space.
proof fn lemma_split_join(v: Seq<Seq<char>>)
    requires
        v.len() > 0,
        forall|i: int| 0 <= i < v.len() ==> plain_name(#[trigger] v[i]),
    ensures
        split_char(join(v, ", "@), ',') == Seq::new(v.len(), |i: int| if i == 0 { v[0] } else { " "@ + v[i] }),
    decreases v.len(),
{
    reveal_strlit(", ");
    reveal_strlit(" ");
    assert(plain_name(v.last()));
    let tail = " "@ + v.last();
    assert forall|k: int| 0 <= k < tail.len() implies tail[k] != ',' by {
        if k > 0 {
            assert(tail[k] == v.last()[k - 1]);
        }
    }
    if v.len() == 1 {
        assert(plain_name(v[0]));
        lemma_split_no_sep(v[0], ',');
        assert(seq![v[0]] =~= Seq::new(v.len(), |i: int| if i == 0 { v[0] } else { " "@ + v[i] }));
    } else {
        let d = v.drop_last();
        assert forall|i: int| 0 <= i < d.len() implies plain_name(#[trigger] d[i]) by {
            assert(d[i] == v[i]);
        }
        lemma_split_join(d);
        assert(join(v, ", "@) =~= join(d, ", "@) + seq![','] + tail);
        lemma_split_append(join(d, ", "@), tail, ',');
        lemma_split_no_sep(tail, ',');
        assert(Seq::new(d.len(), |i: int| if i == 0 { d[0] } else { " "@ + d[i] }) + seq![tail]
            =~= Seq::new(v.len(), |i: int| if i == 0 { v[0] } else { " "@ + v[i] }));
    }
}

proof fn lemma_trim_plain(n: Seq<char>)
    requires
        plain_name(n),
    ensures
        trim(n) == n,
        trim(" "@ + n) == n,
{
    reveal_strlit(" ");
    let s = " "@ + n;
    assert(ws_prefix_len(n) == 0);
    assert(ws_suffix_len(n) == 0);
    assert(s.drop_first() =~= n);
    assert(is_ws(s[0]));
    assert(ws_prefix_len(s) == 1);
    assert(trim_start(s) =~= n);
    assert(trim_start(n) =~= n);
    assert(trim_end(n) =~= n);
}

proof fn lemma_filter_all<A>(s: Seq<A>, p: spec_fn(A) -> bool)
    requires
        forall|i: int| 0 <= i < s.len() ==> p(s[i]),
    ensures
        s.filter(p) == s,
    decreases s.len(),
{
    reveal(Seq::filter);
    if s.len() > 0 {
        lemma_filter_all(s.drop_last(), p);
        assert(s.drop_last().push(s.last()) =~= s);
    }
}

/// Listing node classes in the missing-nodes error and parsing that error
/// gives the same classes back, in the same order, whatever log excerpt
/// follows, for names that are not empty, carry no surrounding white space
/// and hold neither `,` nor `.`.
pub proof fn law_missing_nodes_round_trip(missing: Seq<Seq<char>>, log_tail: Option<Seq<char>>)
    requires
        forall|i: int| 0 <= i < missing.len() ==> plain_name(#[trigger] missing[i]),
    ensures
        missing_nodes_in(missing_nodes_message(missing, log_tail)) == missing,
{
    let m = missing_nodes_message(missing, log_tail);
    let p = missing_nodes_head();
    let k = mooshie_marker();
    let c = ": "@;
    let j = join(missing, ", "@);
    let a = missing_nodes_advice();
    let t = match log_tail {
        Some(l) => log_heading() + l,
        None => Seq::empty(),
    };
    reveal_strlit("This ComfyUI server ");
    reveal_strlit("has not loaded required MooshieUI custom nodes");
    reveal_strlit(": ");
    reveal_strlit(", ");
    reveal_strlit(" ");
    reveal_strlit(". If MooshieUI just installed or updated the nodes, fully stop ComfyUI/python.exe, then start MooshieUI again so the custom nodes load. If this is a remote or external ComfyUI server, install the MooshieUI custom nodes there and restart that server.");
    assert(m =~= p + k + c + j + a + t);
    // The marker first occurs right after the head.
    lemma_find_from(m, k, 0);
    assert(m.subrange(20, 66) =~= k);
    assert(occurs_at(m, k, 20));
    assert forall|j: int| 0 <= j < 20 implies !occurs_at(m, k, j) by {
        if occurs_at(m, k, j) {
            assert(m.subrange(j, j + 46)[0] == m[j]);
            assert(m.subrange(j, j + 46)[1] == m[j + 1]);
            if j == 0 {
                assert(m[0] == 'T' && m[1] == 'h');
            } else if j == 1 {
                assert(m[1] == 'h' && m[2] == 'i');
            } else if j == 2 {
                assert(m[2] == 'i' && m[3] == 's');
            } else if j == 3 {
                assert(m[3] == 's' && m[4] == ' ');
            } else if j == 4 {
                assert(m[4] == ' ' && m[5] == 'C');
            } else if j == 5 {
                assert(m[5] == 'C' && m[6] == 'o');
            } else if j == 6 {
                assert(m[6] == 'o' && m[7] == 'm');
            } else if j == 7 {
                assert(m[7] == 'm' && m[8] == 'f');
            } else if j == 8 {
                assert(m[8] == 'f' && m[9] == 'y');
            } else if j == 9 {
                assert(m[9] == 'y' && m[10] == 'U');
            } else if j == 10 {
                assert(m[10] == 'U' && m[11] == 'I');
            } else if j == 11 {
                assert(m[11] == 'I' && m[12] == ' ');
            } else if j == 12 {
                assert(m[12] == ' ' && m[13] == 's');
            } else if j == 13 {
                assert(m[13] == 's' && m[14] == 'e');
            } else if j == 14 {
                assert(m[14] == 'e' && m[15] == 'r');
            } else if j == 15 {
                assert(m[15] == 'r' && m[16] == 'v');
            } else if j == 16 {
                assert(m[16] == 'v' && m[17] == 'e');
            } else if j == 17 {
                assert(m[17] == 'e' && m[18] == 'r');
            } else if j == 18 {
                assert(m[18] == 'r' && m[19] == ' ');
            } else if j == 19 {
                assert(m[19] == ' ' && m[20] == 'h');
            }
        }
    }
    assert(find(m, k) == Some(20int));
    let rest = m.skip(66);
    let x = j + a + t;
    assert(rest =~= c + x);
    lemma_char_pos(rest, ':');
    assert(rest[0] == ':');
    assert(char_pos(rest, ':') == Some(0int)) by {
        if char_pos(rest, ':') is None {
            assert(rest[0] != ':');
        }
    }
    let s = rest.skip(1);
    assert(s =~= " "@ + x);
    // One space before the list.
    assert(x.len() > 0 && !is_ws(x[0])) by {
        if missing.len() > 0 {
            lemma_join_first(missing, ", "@);
            assert(plain_name(missing[0]));
            assert(x[0] == j[0]);
        } else {
            assert(x[0] == a[0]);
        }
    }
    assert(ws_prefix_len(x) == 0);
    assert(s.drop_first() =~= x);
    assert(ws_prefix_len(s) == 1);
    let after = trim_start(s);
    assert(after =~= x);
    // The list ends at the advice's first period.
    assert forall|i: int, q: int| 0 <= i < missing.len() && 0 <= q < missing[i].len()
        implies #[trigger] missing[i][q] != '.' by {
        assert(plain_name(missing[i]));
    }
    lemma_join_no_char(missing, ", "@, '.');
    lemma_char_pos(x, '.');
    assert(x[j.len() as int] == '.');
    assert(char_pos(x, '.') == Some(j.len() as int)) by {
        if char_pos(x, '.') is None {
            assert(x[j.len() as int] != '.');
        } else {
            let e = char_pos(x, '.')->0;
            if e < j.len() {
                assert(x[e] == j[e]);
            } else if e > j.len() {
                assert(x[j.len() as int] != '.');
            }
        }
    }
    assert(after.take(j.len() as int) =~= j);
    let pieces = split_char(j, ',');
    let trimmed = pieces.map_values(|q: Seq<char>| trim(q));
    assert(missing_nodes_in(m) == trimmed.filter(|q: Seq<char>| q.len() > 0));
    if missing.len() == 0 {
        assert(j =~= Seq::<char>::empty());
        assert(find(j, seq![',']) is None);
        assert(pieces == seq![j]);
        assert(trim(j) =~= j);
        assert(trimmed =~= seq![Seq::<char>::empty()]);
        reveal(Seq::filter);
        assert(trimmed.drop_last() =~= Seq::<Seq<char>>::empty());
        assert(trimmed.drop_last().filter(|q: Seq<char>| q.len() > 0) =~= Seq::<Seq<char>>::empty());
        assert(trimmed.last().len() == 0);
        assert(trimmed.filter(|q: Seq<char>| q.len() > 0) =~= Seq::<Seq<char>>::empty());
    } else {
        lemma_split_join(missing);
        assert forall|i: int| 0 <= i < missing.len() implies #[trigger] trimmed[i] == missing[i] by {
            assert(plain_name(missing[i]));
            lemma_trim_plain(missing[i]);
        }
        assert(trimmed =~= missing);
        lemma_filter_all(missing, |q: Seq<char>| q.len() > 0);
    }
}

/// What a failed command said: the last 20 lines of its error output, or
/// of its standard output when the error output is blank, joined by `\n`;
/// when that is blank too, `process exited with` and its exit status.
pub open spec fn output_excerpt_of(stdout: Seq<char>, stderr: Seq<char>, status: Seq<char>) -> Seq<char> {
    let combined = if trim(stderr).len() == 0 { stdout } else { stderr };
    let ls = lines(combined);
    let start = if ls.len() > 20 { ls.len() - 20 } else { 0 };
    let excerpt = join(ls.skip(start), "\n"@);
    if trim(excerpt).len() == 0 { "process exited with "@ + status } else { excerpt }
}

/// The excerpt of a failed command's output (see [`output_excerpt_of`]).
pub fn command_output_excerpt(stdout: &str, stderr: &str, status: &str) -> (r: String)
    ensures
        r@ == output_excerpt_of(stdout@, stderr@, status@),
{
    let ec = chars_of(stderr);
    let et = trim_chars(&ec, 0, ec.len());
    assert(ec@.subrange(0, ec@.len() as int) =~= ec@);
    let combined = if et.as_str().unicode_len() == 0 { stdout } else { stderr };
    let ls = crate::text::lines_of(combined);
    let n = ls.len();
    let start = if n > 20 { n - 20 } else { 0 };
    let mut tail: Vec<String> = Vec::new();
    let mut i = start;
    while i < n
        invariant
            start <= i <= n,
            n == ls@.len(),
            tail@.map_values(|x: String| x@) == ls@.map_values(|x: String| x@).subrange(start as int, i as int),
        decreases n - i,
    {
        let ghost before = tail@.map_values(|x: String| x@);
        tail.push(ls[i].clone());
        assert(tail@.map_values(|x: String| x@) =~= before.push(ls@[i as int]@));
        assert(ls@.map_values(|x: String| x@).subrange(start as int, i + 1) =~= ls@.map_values(|x: String| x@)
            .subrange(start as int, i as int).push(ls@[i as int]@));
        i += 1;
    }
    assert(ls@.map_values(|x: String| x@).subrange(start as int, n as int) =~= ls@.map_values(|x: String| x@).skip(
        start as int,
    ));
    let excerpt = join_strings(&tail, "\n");
    let xc = chars_of(excerpt.as_str());
    let xt = trim_chars(&xc, 0, xc.len());
    assert(xc@.subrange(0, xc@.len() as int) =~= xc@);
    if xt.as_str().unicode_len() == 0 {
        let mut m = String::from_str("process exited with ");
        push_str(&mut m, status);
        m
    } else {
        excerpt
    }
}

/// Kinds of server errors shown to the user.
#[derive(Debug, Clone, Copy, PartialEq, Eq, Structural)]
pub enum ServerErrorKind {
    MissingMooshieNodes,
    MissingControlnetNodes,
    Crashed,
    Generic,
}

impl ServerErrorKind {
    /// The kind's name in event payloads.
    pub fn as_str(&self) -> (s: &'static str)
        ensures
            s@ == match self {
                ServerErrorKind::MissingMooshieNodes => "missing_mooshie_nodes"@,
                ServerErrorKind::MissingControlnetNodes => "missing_controlnet_nodes"@,
                ServerErrorKind::Crashed => "crashed"@,
                ServerErrorKind::Generic => "generic"@,
            },
    {
        match self {
            ServerErrorKind::MissingMooshieNodes => "missing_mooshie_nodes",
            ServerErrorKind::MissingControlnetNodes => "missing_controlnet_nodes",
            ServerErrorKind::Crashed => "crashed",
            ServerErrorKind::Generic => "generic",
        }
    }
}

/// The kind of a server error message: missing MooshieUI nodes when any are
/// listed, then missing ControlNet nodes, then a crashed process, else generic.
pub open spec fn error_kind(error: Seq<char>) -> ServerErrorKind {
    if missing_nodes_in(error).len() > 0 {
        ServerErrorKind::MissingMooshieNodes
    } else if contains(error, controlnet_marker()) {
        ServerErrorKind::MissingControlnetNodes
    } else if contains(error, "exited with"@) || contains(error, "process exited"@) {
        ServerErrorKind::Crashed
    } else {
        ServerErrorKind::Generic
    }
}

/// The payload of `comfyui:server_error` events and startup failures.
pub struct ServerErrorPayload {
    pub error: String,
    pub kind: ServerErrorKind,
    pub missing_nodes: Vec<String>,
    pub log_excerpt: Option<String>,
    pub port: u16,
}

/// Build the server-error payload for an error message, the port of the
/// server and the last lines of its log when they could be read.
pub fn server_error_payload(error: &str, port: u16, log_excerpt: Option<String>) -> (p: ServerErrorPayload)
    ensures
        p.error@ == error@,
        p.kind == error_kind(error@),
        p.missing_nodes@.map_values(|s: String| s@) == missing_nodes_in(error@),
        p.log_excerpt == log_excerpt,
        p.port == port,
{
    let missing_nodes = parse_missing_nodes_from_error(error);
    assert(missing_nodes@.map_values(|s: String| s@).len() == missing_nodes@.len());
    let kind = if missing_nodes.len() > 0 {
        ServerErrorKind::MissingMooshieNodes
    } else if str_contains(error, missing_controlnet_nodes_marker()) {
        ServerErrorKind::MissingControlnetNodes
    } else if str_contains(error, "exited with") || str_contains(error, "process exited") {
        ServerErrorKind::Crashed
    } else {
        ServerErrorKind::Generic
    };
    ServerErrorPayload { error: String::from_str(error), kind, missing_nodes, log_excerpt, port }
}

/// The error reported when ComfyUI did not load the ControlNet node classes
/// listed in `missing`.
pub fn missing_controlnet_nodes_error(missing: &Vec<String>) -> (msg: String)
    ensures
        msg@ == controlnet_marker() + ": "@ + join(missing@.map_values(|s: String| s@), ", "@)
            + ". Check the ComfyUI log for custom-node import errors."@,
{
    let mut msg = String::from_str(missing_controlnet_nodes_marker());
    push_str(&mut msg, ": ");
    let joined = join_strings(missing, ", ");
    push_str(&mut msg, joined.as_str());
    push_str(&mut msg, ". Check the ComfyUI log for custom-node import errors.");
    msg
}

/// The entry naming a missing node class and its package: `class (package)`.
pub fn missing_node_entry(node_class: &str, package: &str) -> (s: String)
    ensures
        s@ == node_class@ + " ("@ + package@ + ")"@,
{
    let mut s = String::from_str(node_class);
    push_str(&mut s, " (");
    push_str(&mut s, package);
    push_str(&mut s, ")");
    s
}

// ---------------------------------------------------------------------------
// netstat
// ---------------------------------------------------------------------------

/// The white-space separated fields of a text.
pub open spec fn fields(s: Seq<char>) -> Seq<Seq<char>>
    decreases s.len(),
{
    let t = trim_start(s);
    if t.len() == 0 {
        Seq::empty()
    } else {
        let end = field_end(t, 0);
        proof {
            crate::text::lemma_ws_prefix(s);
            lemma_field_end(t, 0);
            if end == 0 {
                assert(is_ws(t[0]));
                assert(t[0] == s[crate::text::ws_prefix_len(s) as int]);
            }
        }
        seq![t.take(end)] + fields(t.skip(end))
    }
}

/// The end of the field starting at `i` (the first white space at or after `i`).
pub open spec fn field_end(t: Seq<char>, i: int) -> int
    decreases t.len() - i,
{
    if i >= t.len() || i < 0 {
        t.len() as int
    } else if is_ws(t[i]) {
        i
    } else {
        field_end(t, i + 1)
    }
}

/// The port of a socket address `host:port` (the text after its last colon).
pub open spec fn port_of_address(a: Seq<char>) -> Option<u32> {
    match last_colon(a, a.len() as int) {
        Some(i) => parse_u32(a.skip(i + 1)),
        None => None,
    }
}

/// The position of the last `:` before `i`.
pub open spec fn last_colon(a: Seq<char>, i: int) -> Option<int>
    decreases i,
{
    if i <= 0 || i > a.len() {
        None
    } else if a[i - 1] == ':' {
        Some(i - 1)
    } else {
        last_colon(a, i - 1)
    }
}

/// The PID in a `netstat -ano` line when the line is a listening socket whose
/// local port is exactly `port`: fields protocol, local address, foreign
/// address, `LISTENING`, PID.
pub open spec fn listening_pid(line: Seq<char>, port: u16) -> Option<u32> {
    let f = fields(line);
    if f.len() >= 5 && f[3] == "LISTENING"@ && port_of_address(f[1]) == Some(port as u32) {
        parse_u32(f[f.len() - 1])
    } else {
        None
    }
}

pub proof fn lemma_field_end(t: Seq<char>, i: int)
    requires
        0 <= i <= t.len(),
    ensures
        i <= field_end(t, i) <= t.len(),
        field_end(t, i) < t.len() ==> is_ws(t[field_end(t, i)]),
        forall|j: int| i <= j < field_end(t, i) ==> !is_ws(#[trigger] t[j]),
    decreases t.len() - i,
{
    if i < t.len() && !is_ws(t[i]) {
        lemma_field_end(t, i + 1);
    }
}

/// Split a text into its white-space separated fields.
fn split_fields(s: &Vec<char>) -> (r: Vec<Vec<char>>)
    ensures
        r@.map_values(|v: Vec<char>| v@) == fields(s@),
{
    let mut out: Vec<Vec<char>> = Vec::new();
    let mut pos: usize = 0;
    let ghost whole = fields(s@);
    assert(s@.skip(0) =~= s@);
    assert(out@.map_values(|v: Vec<char>| v@) + whole =~= whole);
    while pos < s.len()
        invariant
            pos <= s@.len(),
            whole == fields(s@),
            whole == out@.map_values(|v: Vec<char>| v@) + fields(s@.skip(pos as int)),
        decreases s@.len() - pos,
    {
        let ghost rest = s@.skip(pos as int);
        let mut a = pos;
        while a < s.len() && char_is_ws(s[a])
            invariant
                pos <= a <= s@.len(),
                forall|i: int| pos <= i < a ==> is_ws(s@[i]),
            decreases s@.len() - a,
        {
            a += 1;
        }
        proof {
            crate::text::lemma_ws_prefix(rest);
            assert(crate::text::ws_prefix_len(rest) == a - pos) by {
                if crate::text::ws_prefix_len(rest) < a - pos {
                    assert(is_ws(rest[crate::text::ws_prefix_len(rest) as int]));
                } else if crate::text::ws_prefix_len(rest) > a - pos {
                    assert(is_ws(rest[a - pos]));
                }
            }
            assert(trim_start(rest) =~= s@.skip(a as int));
        }
        if a == s.len() {
            proof {
                assert(fields(rest) == Seq::<Seq<char>>::empty());
                assert(s@.skip(a as int) =~= s@.skip(s@.len() as int));
                assert(out@.map_values(|v: Vec<char>| v@) + fields(rest) =~= out@.map_values(|v: Vec<char>| v@));
                assert(fields(s@.skip(s@.len() as int)) == Seq::<Seq<char>>::empty());
            }
            pos = a;
        } else {
            let mut b = a;
            while b < s.len() && !char_is_ws(s[b])
                invariant
                    a <= b <= s@.len(),
                    forall|i: int| a <= i < b ==> !is_ws(s@[i]),
                decreases s@.len() - b,
            {
                b += 1;
            }
            let ghost t = s@.skip(a as int);
            proof {
                lemma_field_end(t, 0);
                assert(field_end(t, 0) == b - a) by {
                    if field_end(t, 0) < b - a {
                        assert(is_ws(t[field_end(t, 0)]));
                        assert(t[field_end(t, 0)] == s@[a + field_end(t, 0)]);
                    } else if field_end(t, 0) > b - a {
                        assert(!is_ws(t[b - a]));
                    }
                }
                assert(t.take(b - a) =~= s@.subrange(a as int, b as int));
                assert(t.skip(b - a) =~= s@.skip(b as int));
            }
            let ghost before = out@;
            out.push(copy_range(s, a, b));
            proof {
                assert(out@.map_values(|v: Vec<char>| v@) =~= before.map_values(|v: Vec<char>| v@).push(
                    s@.subrange(a as int, b as int)));
                assert(fields(rest) == seq![t.take(b - a)] + fields(t.skip(b - a)));
                assert(before.map_values(|v: Vec<char>| v@) + fields(rest) =~= out@.map_values(|v: Vec<char>| v@)
                    + fields(s@.skip(b as int)));
            }
            pos = b;
        }
    }
    proof {
        assert(s@.skip(pos as int).len() == 0);
        assert(trim_start(s@.skip(pos as int)).len() == 0);
        assert(out@.map_values(|v: Vec<char>| v@) + fields(s@.skip(pos as int)) =~= out@.map_values(|v: Vec<char>| v@));
    }
    out
}

fn is_listening(f: &Vec<char>) -> (r: bool)
    ensures
        r == (f@ == "LISTENING"@),
{
    let l = chars_of("LISTENING");
    if f.len() != l.len() {
        return false;
    }
    let mut i: usize = 0;
    while i < f.len()
        invariant
            i <= f@.len(),
            f@.len() == l@.len(),
            l@ == "LISTENING"@,
            forall|j: int| 0 <= j < i ==> f@[j] == l@[j],
        decreases f@.len() - i,
    {
        if f[i] != l[i] {
            return false;
        }
        i += 1;
    }
    assert(f@ =~= l@);
    true
}

fn address_port(a: &Vec<char>) -> (r: Option<u32>)
    ensures
        r == port_of_address(a@),
{
    let mut i = a.len();
    while i > 0 && a[i - 1] != ':'
        invariant
            i <= a@.len(),
            last_colon(a@, a@.len() as int) == last_colon(a@, i as int),
        decreases i,
    {
        i -= 1;
    }
    if i == 0 {
        return None;
    }
    let r = parse_u32_chars(a, i, a.len());
    assert(a@.subrange(i as int, a@.len() as int) =~= a@.skip(i as int));
    r
}

/// The PID of the process listening on exactly `port`, read from one line of
/// `netstat -ano` output (see [`listening_pid`]).
pub fn parse_netstat_listening_pid(line: &str, port: u16) -> (r: Option<u32>)
    ensures
        r == listening_pid(line@, port),
{
    let chars = chars_of(line);
    let f = split_fields(&chars);
    let ghost fv = f@.map_values(|v: Vec<char>| v@);
    if f.len() < 5 {
        return None;
    }
    assert(fv[3] == f@[3]@ && fv[1] == f@[1]@);
    if !is_listening(&f[3]) {
        return None;
    }
    match address_port(&f[1]) {
        Some(p) => {
            if p != port as u32 {
                return None;
            }
        },
        None => {
            return None;
        },
    }
    let last = &f[f.len() - 1];
    assert(fv[fv.len() - 1] == last@);
    let r = parse_u32_chars(last, 0, last.len());
    assert(last@.subrange(0, last@.len() as int) =~= last@);
    r
}

} // verus!
