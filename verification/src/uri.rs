//! Requests for gallery images and their thumbnails as the custom URI
//! schemes address them: which file is asked for, and at what size.
use vstd::prelude::*;
use vstd::utf8::{valid_utf8, decode_utf8, encode_utf8};
use crate::text::{chars_of, string_of, occurs_at, occurs_at_exec, find, find_chars, lemma_find_from, contains,
    str_contains, split_char, split_chars, parse_u32, parse_u32_chars};

verus! {

/// The text starts with `p`.
pub open spec fn has_prefix(s: Seq<char>, p: Seq<char>) -> bool {
    occurs_at(s, p, 0)
}

/// What follows the first of the four prefixes the URI starts with; nothing
/// when it starts with none of them.
pub open spec fn after_scheme(uri: Seq<char>, a: Seq<char>, b: Seq<char>, c: Seq<char>, d: Seq<char>) -> Seq<char> {
    if has_prefix(uri, a) {
        uri.skip(a.len() as int)
    } else if has_prefix(uri, b) {
        uri.skip(b.len() as int)
    } else if has_prefix(uri, c) {
        uri.skip(c.len() as int)
    } else if has_prefix(uri, d) {
        uri.skip(d.len() as int)
    } else {
        Seq::empty()
    }
}

/// The path of a thumbnail request (`thumbnail://localhost/...` on macOS and
/// Linux, `https://thumbnail.localhost/...` on Windows).
pub open spec fn thumbnail_path(uri: Seq<char>) -> Seq<char> {
    after_scheme(uri, "https://thumbnail.localhost/"@, "http://thumbnail.localhost/"@, "thumbnail://localhost/"@,
        "thumbnail:///"@)
}

/// The path of a gallery image request.
pub open spec fn gallery_path(uri: Seq<char>) -> Seq<char> {
    after_scheme(uri, "https://gallery.localhost/"@, "http://gallery.localhost/"@, "gallery://localhost/"@,
        "gallery:///"@)
}

/// The part of a path before its first `?`.
pub open spec fn path_part(p: Seq<char>) -> Seq<char> {
    match find(p, seq!['?']) {
        Some(i) => p.take(i),
        None => p,
    }
}

/// The query after the first `?` of a path (empty without one).
pub open spec fn query_part(p: Seq<char>) -> Seq<char> {
    match find(p, seq!['?']) {
        Some(i) => p.skip(i + 1),
        None => Seq::empty(),
    }
}

/// The value of a hexadecimal digit (either case).
pub open spec fn hex_value(b: u8) -> Option<int> {
    if 0x30 <= b <= 0x39 {
        Some(b - 0x30)
    } else if 0x41 <= b <= 0x46 {
        Some(b - 0x41 + 10)
    } else if 0x61 <= b <= 0x66 {
        Some(b - 0x61 + 10)
    } else {
        None
    }
}

/// Percent-decoding of bytes: each `%` followed by two hexadecimal digits
/// becomes the byte they write; every other byte, a lone `%` included, is
/// kept.
pub open spec fn percent_decode_bytes(b: Seq<u8>) -> Seq<u8>
    decreases b.len(),
{
    if b.len() == 0 {
        Seq::empty()
    } else if b[0] == 0x25 && b.len() >= 3 && hex_value(b[1]) is Some && hex_value(b[2]) is Some {
        seq![(hex_value(b[1])->0 * 16 + hex_value(b[2])->0) as u8] + percent_decode_bytes(b.skip(3))
    } else {
        seq![b[0]] + percent_decode_bytes(b.skip(1))
    }
}

/// The percent-decoded text, when the decoded bytes are valid UTF-8.
pub open spec fn percent_decoded_utf8(s: Seq<char>) -> Option<Seq<char>> {
    let d = percent_decode_bytes(encode_utf8(s));
    if valid_utf8(d) {
        Some(decode_utf8(d))
    } else {
        None
    }
}

/// percent-encoding `percent_decode_str(..).decode_utf8()`: decodes every
/// `%` followed by two hexadecimal digits and reads the bytes as UTF-8;
/// `None` when they are not valid UTF-8.
#[verifier::external_body]
fn percent_decode_utf8(s: &str) -> (r: Option<String>)
    ensures
        r.deep_view() == percent_decoded_utf8(s@),
{
    percent_encoding::percent_decode_str(s).decode_utf8().ok().map(|c| c.into_owned())
}

/// The file a request path names: its part before `?`, percent-decoded, or
/// as written when the decoded bytes are not UTF-8.
pub open spec fn request_filename(p: Seq<char>) -> Seq<char> {
    match percent_decoded_utf8(path_part(p)) {
        Some(f) => f,
        None => path_part(p),
    }
}

/// The text after `size=` in the first `&`-separated query piece that starts
/// with it.
pub open spec fn first_size(pieces: Seq<Seq<char>>) -> Option<Seq<char>>
    decreases pieces.len(),
{
    if pieces.len() == 0 {
        None
    } else if has_prefix(pieces[0], "size="@) {
        Some(pieces[0].skip(5))
    } else {
        first_size(pieces.drop_first())
    }
}

/// The thumbnail size a query asks for: its `size=` value when it parses as
/// a `u32`, else 256.
pub open spec fn size_param(q: Seq<char>) -> u32 {
    match first_size(split_char(q, '&')) {
        Some(t) => match parse_u32(t) {
            Some(v) => v,
            None => 256,
        },
        None => 256,
    }
}

/// A plain file name: no `/`, no `\` and no `..`.
pub open spec fn plain_filename(f: Seq<char>) -> bool {
    !(contains(f, seq!['/']) || contains(f, seq!['\\']) || contains(f, ".."@))
}

/// Whether a requested file name is a plain name (no `/`, `\` or `..`), so
/// that it cannot leave the gallery directory.
pub fn is_plain_filename(f: &str) -> (r: bool)
    ensures
        r == plain_filename(f@),
{
    let slash = "/";
    let backslash = "\\";
    proof {
        reveal_strlit("/");
        reveal_strlit("\\");
        assert(slash@ =~= seq!['/']);
        assert(backslash@ =~= seq!['\\']);
    }
    !(str_contains(f, slash) || str_contains(f, backslash) || str_contains(f, ".."))
}

fn starts_with_text(cs: &Vec<char>, p: &str) -> (r: bool)
    ensures
        r == has_prefix(cs@, p@),
{
    let pc = chars_of(p);
    if pc.len() > cs.len() {
        return false;
    }
    occurs_at_exec(cs, &pc, 0)
}

/// What follows the first matching prefix (see [`after_scheme`]).
fn strip_scheme(cs: &Vec<char>, a: &str, b: &str, c: &str, d: &str) -> (r: Vec<char>)
    ensures
        r@ == after_scheme(cs@, a@, b@, c@, d@),
{
    let n = if starts_with_text(cs, a) {
        a.unicode_len()
    } else if starts_with_text(cs, b) {
        b.unicode_len()
    } else if starts_with_text(cs, c) {
        c.unicode_len()
    } else if starts_with_text(cs, d) {
        d.unicode_len()
    } else {
        cs.len()
    };
    let rest = string_of(cs, n, cs.len());
    assert(rest@ =~= after_scheme(cs@, a@, b@, c@, d@));
    chars_of(rest.as_str())
}

/// The path part and query part of a request path.
fn split_query(p: &Vec<char>) -> (r: (String, String))
    ensures
        r.0@ == path_part(p@),
        r.1@ == query_part(p@),
{
    let q = vec!['?'];
    assert(q@ =~= seq!['?']);
    proof {
        lemma_find_from(p@, seq!['?'], 0);
    }
    match find_chars(p, &q, 0) {
        Some(i) => {
            assert(occurs_at(p@, seq!['?'], i as int));
            assert(seq!['?'].len() == 1);
            assert((i as int) + 1 <= p@.len());
            assert(i < p.len());
            let a = string_of(p, 0, i);
            let b = string_of(p, i + 1, p.len());
            assert(a@ =~= p@.take(i as int));
            assert(b@ =~= p@.skip(i + 1));
            (a, b)
        },
        None => {
            let a = string_of(p, 0, p.len());
            assert(a@ =~= p@);
            (a, String::new())
        },
    }
}

fn decoded_filename(path: &str) -> (r: String)
    ensures
        r@ == match percent_decoded_utf8(path@) {
            Some(f) => f,
            None => path@,
        },
{
    match percent_decode_utf8(path) {
        Some(f) => f,
        None => String::from_str(path),
    }
}

/// The `size=` value of a query as [`size_param`] reads it.
fn size_of_query(q: &str) -> (r: u32)
    ensures
        r == size_param(q@),
{
    let cs = chars_of(q);
    let pieces = split_chars(&cs, '&');
    let ghost pv = pieces@.map_values(|x: String| x@);
    let mut i: usize = 0;
    assert(pv.skip(0) =~= pv);
    while i < pieces.len()
        invariant
            i <= pieces@.len(),
            pv == pieces@.map_values(|x: String| x@),
            pv == split_char(q@, '&'),
            first_size(pv.skip(i as int)) == first_size(pv),
        decreases pieces@.len() - i,
    {
        let pc = chars_of(pieces[i].as_str());
        assert(pv.skip(i as int)[0] == pc@);
        if starts_with_text(&pc, "size=") {
            proof {
                reveal_strlit("size=");
            }
            let t = string_of(&pc, 5, pc.len());
            assert(t@ =~= pc@.skip(5));
            let tc = chars_of(t.as_str());
            assert(tc@.subrange(0, tc@.len() as int) =~= tc@);
            return match parse_u32_chars(&tc, 0, tc.len()) {
                Some(v) => v,
                None => 256,
            };
        }
        assert(pv.skip(i as int).drop_first() =~= pv.skip(i + 1));
        i += 1;
    }
    256
}

/// A thumbnail request: the file name (percent-decoded when that gives
/// UTF-8) and the size asked for (256 unless a `size=` value parses).
pub fn parse_thumbnail_uri(uri: &str) -> (r: (String, u32))
    ensures
        r.0@ == request_filename(thumbnail_path(uri@)),
        r.1 == size_param(query_part(thumbnail_path(uri@))),
{
    let cs = chars_of(uri);
    let p = strip_scheme(&cs, "https://thumbnail.localhost/", "http://thumbnail.localhost/", "thumbnail://localhost/",
        "thumbnail:///");
    let (path, query) = split_query(&p);
    (decoded_filename(path.as_str()), size_of_query(query.as_str()))
}

/// A gallery image request: the file name (percent-decoded when that gives
/// UTF-8), or `None` when it is not a plain file name.
pub fn parse_gallery_uri(uri: &str) -> (r: Option<String>)
    ensures
        r.deep_view() == if plain_filename(request_filename(gallery_path(uri@))) {
            Some(request_filename(gallery_path(uri@)))
        } else {
            None
        },
{
    let cs = chars_of(uri);
    let p = strip_scheme(&cs, "https://gallery.localhost/", "http://gallery.localhost/", "gallery://localhost/",
        "gallery:///");
    let (path, _query) = split_query(&p);
    let f = decoded_filename(path.as_str());
    if is_plain_filename(f.as_str()) {
        Some(f)
    } else {
        None
    }
}

} // verus!
