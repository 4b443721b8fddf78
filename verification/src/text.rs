//! Character-level text operations with their meaning stated over `Seq<char>`:
//! searching, splitting, joining, trimming Unicode white space and decimal
//! number parsing.
use vstd::prelude::*;

verus! {

/// Unicode `White_Space`, the set `char::is_whitespace` tests.
pub open spec fn is_ws(c: char) -> bool {
    ||| ('\u{9}' <= c && c <= '\u{d}')
    ||| c == ' '
    ||| c == '\u{85}'
    ||| c == '\u{a0}'
    ||| c == '\u{1680}'
    ||| ('\u{2000}' <= c && c <= '\u{200a}')
    ||| c == '\u{2028}'
    ||| c == '\u{2029}'
    ||| c == '\u{202f}'
    ||| c == '\u{205f}'
    ||| c == '\u{3000}'
}

/// Whether a character is Unicode white space.
pub fn char_is_ws(c: char) -> (r: bool)
    ensures
        r == is_ws(c),
{
    ('\u{9}' <= c && c <= '\u{d}') || c == ' ' || c == '\u{85}' || c == '\u{a0}' || c == '\u{1680}'
        || ('\u{2000}' <= c && c <= '\u{200a}') || c == '\u{2028}' || c == '\u{2029}' || c == '\u{202f}'
        || c == '\u{205f}' || c == '\u{3000}'
}

/// Number of leading white-space characters.
pub open spec fn ws_prefix_len(s: Seq<char>) -> nat
    decreases s.len(),
{
    if s.len() > 0 && is_ws(s[0]) { 1 + ws_prefix_len(s.drop_first()) } else { 0 }
}

/// Number of trailing white-space characters.
pub open spec fn ws_suffix_len(s: Seq<char>) -> nat
    decreases s.len(),
{
    if s.len() > 0 && is_ws(s.last()) { 1 + ws_suffix_len(s.drop_last()) } else { 0 }
}

/// `s` without leading white space.
pub open spec fn trim_start(s: Seq<char>) -> Seq<char> {
    s.skip(ws_prefix_len(s) as int)
}

/// `s` without trailing white space.
pub open spec fn trim_end(s: Seq<char>) -> Seq<char> {
    s.take(s.len() - ws_suffix_len(s))
}

/// `s` without leading and trailing white space.
pub open spec fn trim(s: Seq<char>) -> Seq<char> {
    trim_end(trim_start(s))
}

pub proof fn lemma_ws_prefix(s: Seq<char>)
    ensures
        ws_prefix_len(s) <= s.len(),
        forall|i: int| 0 <= i < ws_prefix_len(s) ==> is_ws(#[trigger] s[i]),
        ws_prefix_len(s) < s.len() ==> !is_ws(s[ws_prefix_len(s) as int]),
    decreases s.len(),
{
    if s.len() > 0 && is_ws(s[0]) {
        lemma_ws_prefix(s.drop_first());
        assert forall|i: int| 0 <= i < ws_prefix_len(s) implies is_ws(#[trigger] s[i]) by {
            if i > 0 {
                assert(s[i] == s.drop_first()[i - 1]);
            }
        }
    }
}

pub proof fn lemma_ws_suffix(s: Seq<char>)
    ensures
        ws_suffix_len(s) <= s.len(),
        forall|i: int| s.len() - ws_suffix_len(s) <= i < s.len() ==> is_ws(#[trigger] s[i]),
        ws_suffix_len(s) < s.len() ==> !is_ws(s[s.len() - ws_suffix_len(s) - 1]),
    decreases s.len(),
{
    if s.len() > 0 && is_ws(s.last()) {
        lemma_ws_suffix(s.drop_last());
        assert forall|i: int| s.len() - ws_suffix_len(s) <= i < s.len() implies is_ws(#[trigger] s[i]) by {
            if i < s.len() - 1 {
                assert(s[i] == s.drop_last()[i]);
            }
        }
    }
}

/// The characters of a string.
pub fn chars_of(s: &str) -> (v: Vec<char>)
    ensures
        v@ == s@,
{
    let mut v: Vec<char> = Vec::new();
    let n = s.unicode_len();
    let mut i: usize = 0;
    while i < n
        invariant
            n == s@.len(),
            i <= n,
            v@ == s@.take(i as int),
        decreases n - i,
    {
        v.push(s.get_char(i));
        assert(s@.take(i + 1) =~= s@.take(i as int).push(s@[i as int]));
        i += 1;
    }
    assert(s@.take(n as int) =~= s@);
    v
}

/// `String::push`: appends one character.
#[verifier::external_body]
pub(crate) fn push_char(s: &mut String, c: char)
    ensures
        final(s)@ == old(s)@.push(c),
{
    s.push(c);
}

/// The string made of `v[from..to]`.
pub fn string_of(v: &Vec<char>, from: usize, to: usize) -> (s: String)
    requires
        from <= to <= v@.len(),
    ensures
        s@ == v@.subrange(from as int, to as int),
{
    let mut s = String::new();
    let mut i = from;
    while i < to
        invariant
            from <= i <= to,
            to <= v@.len(),
            s@ == v@.subrange(from as int, i as int),
        decreases to - i,
    {
        push_char(&mut s, v[i]);
        assert(v@.subrange(from as int, i + 1) =~= v@.subrange(from as int, i as int).push(v@[i as int]));
        i += 1;
    }
    s
}

/// Append `t` to `s`.
pub fn push_str(s: &mut String, t: &str)
    ensures
        final(s)@ == old(s)@ + t@,
{
    s.append(t);
}

/// `needle` occurs in `hay` at position `i`.
pub open spec fn occurs_at(hay: Seq<char>, needle: Seq<char>, i: int) -> bool {
    0 <= i && i + needle.len() <= hay.len() && hay.subrange(i, i + needle.len()) == needle
}

/// The first position at or after `i` where `needle` occurs in `hay`.
pub open spec fn find_from(hay: Seq<char>, needle: Seq<char>, i: int) -> Option<int>
    decreases hay.len() - i,
{
    if i < 0 || i + needle.len() > hay.len() {
        None
    } else if occurs_at(hay, needle, i) {
        Some(i)
    } else if i >= hay.len() {
        None
    } else {
        find_from(hay, needle, i + 1)
    }
}

/// The first position where `needle` occurs in `hay`.
pub open spec fn find(hay: Seq<char>, needle: Seq<char>) -> Option<int> {
    find_from(hay, needle, 0)
}

/// `needle` occurs somewhere in `hay`.
pub open spec fn contains(hay: Seq<char>, needle: Seq<char>) -> bool {
    exists|i: int| occurs_at(hay, needle, i)
}

pub proof fn lemma_find_from(hay: Seq<char>, needle: Seq<char>, i: int)
    requires
        0 <= i,
    ensures
        find_from(hay, needle, i) matches Some(k) ==> i <= k && occurs_at(hay, needle, k)
            && forall|j: int| i <= j < k ==> !occurs_at(hay, needle, j),
        find_from(hay, needle, i) is None ==> forall|j: int| i <= j ==> !occurs_at(hay, needle, j),
    decreases hay.len() - i,
{
    if i + needle.len() <= hay.len() && !occurs_at(hay, needle, i) && i < hay.len() {
        lemma_find_from(hay, needle, i + 1);
    }
    if i + needle.len() <= hay.len() && i >= hay.len() {
        assert(hay.subrange(i, i + needle.len()) =~= needle);
    }
}

pub(crate) fn occurs_at_exec(hay: &Vec<char>, needle: &Vec<char>, i: usize) -> (r: bool)
    requires
        i + needle@.len() <= hay@.len(),
    ensures
        r == occurs_at(hay@, needle@, i as int),
{
    let hl = hay.len();
    let mut j: usize = 0;
    while j < needle.len()
        invariant
            hay@.len() == hl,
            i + needle@.len() <= hay@.len(),
            j <= needle@.len(),
            forall|k: int| 0 <= k < j ==> hay@[i + k] == needle@[k],
        decreases needle@.len() - j,
    {
        if hay[i + j] != needle[j] {
            assert(hay@.subrange(i as int, i + needle@.len())[j as int] != needle@[j as int]);
            return false;
        }
        j += 1;
    }
    assert(hay@.subrange(i as int, i + needle@.len()) =~= needle@);
    true
}

/// The first position at or after `start` where `needle` occurs in `hay`.
pub fn find_chars(hay: &Vec<char>, needle: &Vec<char>, start: usize) -> (r: Option<usize>)
    ensures
        match r {
            Some(k) => find_from(hay@, needle@, start as int) == Some(k as int),
            None => find_from(hay@, needle@, start as int) is None,
        },
{
    let mut i = start;
    if needle.len() > hay.len() {
        assert(find_from(hay@, needle@, start as int) is None);
        return None;
    }
    let last = hay.len() - needle.len();
    if i > last {
        return None;
    }
    loop
        invariant
            last == hay@.len() - needle@.len(),
            start <= i <= last,
            find_from(hay@, needle@, start as int) == find_from(hay@, needle@, i as int),
        decreases last - i,
    {
        if occurs_at_exec(hay, needle, i) {
            return Some(i);
        }
        if i == last {
            return None;
        }
        i += 1;
    }
}

/// Whether `needle` occurs in `hay`.
pub fn contains_chars(hay: &Vec<char>, needle: &Vec<char>) -> (r: bool)
    ensures
        r == contains(hay@, needle@),
{
    let r = find_chars(hay, needle, 0);
    proof {
        lemma_find_from(hay@, needle@, 0);
    }
    match r {
        Some(_) => true,
        None => {
            assert(!contains(hay@, needle@)) by {
                if contains(hay@, needle@) {
                    let k = choose|k: int| occurs_at(hay@, needle@, k);
                }
            }
            false
        },
    }
}

/// Whether `needle` occurs in `hay`.
pub fn str_contains(hay: &str, needle: &str) -> (r: bool)
    ensures
        r == contains(hay@, needle@),
{
    contains_chars(&chars_of(hay), &chars_of(needle))
}

/// The pieces of `s` between occurrences of `sep` (one more piece than there
/// are separators).
pub open spec fn split_char(s: Seq<char>, sep: char) -> Seq<Seq<char>>
    decreases s.len(),
{
    match find(s, seq![sep]) {
        None => seq![s],
        Some(i) => {
            if 0 <= i < s.len() {
                seq![s.take(i)] + split_char(s.skip(i + 1), sep)
            } else {
                seq![s]
            }
        },
    }
}

/// The first position of `c` in `s`, if any.
pub open spec fn char_pos(s: Seq<char>, c: char) -> Option<int> {
    find(s, seq![c])
}

pub proof fn lemma_char_pos(s: Seq<char>, c: char)
    ensures
        char_pos(s, c) matches Some(i) ==> 0 <= i < s.len() && s[i] == c && forall|j: int| 0 <= j < i ==> s[j] != c,
        char_pos(s, c) is None ==> forall|j: int| 0 <= j < s.len() ==> s[j] != c,
{
    lemma_find_from(s, seq![c], 0);
    if let Some(i) = char_pos(s, c) {
        assert(s.subrange(i, i + 1)[0] == c);
        assert forall|j: int| 0 <= j < i implies s[j] != c by {
            if s[j] == c {
                assert(s.subrange(j, j + 1) =~= seq![c]);
                assert(occurs_at(s, seq![c], j));
            }
        }
    } else {
        assert forall|j: int| 0 <= j < s.len() implies s[j] != c by {
            if s[j] == c {
                assert(s.subrange(j, j + 1) =~= seq![c]);
                assert(occurs_at(s, seq![c], j));
            }
        }
    }
}

/// Every piece of `s` between the separator `sep`, in order.
pub fn split_chars(s: &Vec<char>, sep: char) -> (r: Vec<String>)
    ensures
        r@.map_values(|x: String| x@) == split_char(s@, sep),
{
    let sepv: Vec<char> = vec![sep];
    assert(sepv@ =~= seq![sep]);
    let mut out: Vec<String> = Vec::new();
    let mut start: usize = 0;
    let ghost whole = split_char(s@, sep);
    let sl = s.len();
    assert(s@.skip(0) =~= s@);
    assert(out@.map_values(|x: String| x@) + whole =~= whole);
    let mut done = false;
    while !done
        invariant
            s@.len() == sl,
            start <= s@.len(),
            sepv@ == seq![sep],
            !done ==> whole == out@.map_values(|x: String| x@) + split_char(s@.skip(start as int), sep),
            done ==> whole == out@.map_values(|x: String| x@),
        decreases s@.len() - start + (if done { 0int } else { 1int }),
    {
        let ghost rest = s@.skip(start as int);
        let ghost before = out@;
        proof {
            lemma_char_pos(rest, sep);
            lemma_char_pos(s@, sep);
        }
        match find_chars(s, &sepv, start) {
            Some(k) => {
                proof {
                    lemma_find_from(s@, seq![sep], start as int);
                    lemma_char_pos(rest, sep);
                    assert(s@[k as int] == sep) by {
                        assert(s@.subrange(k as int, k + 1)[0] == sep);
                    }
                    assert(rest[k - start] == sep);
                    assert forall|j: int| 0 <= j < k - start implies rest[j] != sep by {
                        if rest[j] == sep {
                            assert(s@.subrange(start + j, start + j + 1) =~= seq![sep]);
                            assert(occurs_at(s@, seq![sep], start + j));
                        }
                    }
                    assert(char_pos(rest, sep) == Some(k - start)) by {
                        if char_pos(rest, sep) is None {
                        } else {
                            let i = char_pos(rest, sep)->0;
                            if i < k - start {
                            } else if i > k - start {
                            }
                        }
                    }
                    assert(rest.take(k - start) =~= s@.subrange(start as int, k as int));
                    assert(rest.skip(k - start + 1) =~= s@.skip(k + 1));
                }
                out.push(string_of(s, start, k));
                proof {
                    assert(out@.map_values(|x: String| x@) =~= before.map_values(|x: String| x@).push(s@.subrange(start as int, k as int)));
                    assert(split_char(rest, sep) == seq![rest.take(k - start)] + split_char(rest.skip(k - start + 1), sep));
                    assert(before.map_values(|x: String| x@) + split_char(rest, sep)
                        =~= out@.map_values(|x: String| x@) + split_char(s@.skip(k + 1), sep));
                }
                start = k + 1;
            },
            None => {
                proof {
                    lemma_find_from(s@, seq![sep], start as int);
                    assert forall|j: int| 0 <= j < rest.len() implies rest[j] != sep by {
                        if rest[j] == sep {
                            assert(s@.subrange(start + j, start + j + 1) =~= seq![sep]);
                            assert(occurs_at(s@, seq![sep], start + j));
                        }
                    }
                    if char_pos(rest, sep) is Some {
                        let i = char_pos(rest, sep)->0;
                        assert(rest[i] == sep);
                    }
                    assert(split_char(rest, sep) == seq![rest]);
                    assert(rest =~= s@.subrange(start as int, s@.len() as int));
                }
                out.push(string_of(s, start, s.len()));
                proof {
                    assert(out@.map_values(|x: String| x@) =~= before.map_values(|x: String| x@).push(rest));
                }
                done = true;
            },
        }
    }
    out
}

/// The characters of `s` without leading and trailing white space.
pub fn trim_chars(s: &Vec<char>, from: usize, to: usize) -> (r: String)
    requires
        from <= to <= s@.len(),
    ensures
        r@ == trim(s@.subrange(from as int, to as int)),
{
    let ghost t = s@.subrange(from as int, to as int);
    let mut a = from;
    while a < to && char_is_ws(s[a])
        invariant
            from <= a <= to,
            to <= s@.len(),
            t == s@.subrange(from as int, to as int),
            forall|i: int| from <= i < a ==> is_ws(s@[i]),
        decreases to - a,
    {
        a += 1;
    }
    proof {
        lemma_ws_prefix(t);
        assert(ws_prefix_len(t) == a - from) by {
            if ws_prefix_len(t) < a - from {
                assert(is_ws(t[ws_prefix_len(t) as int]));
            } else if ws_prefix_len(t) > a - from {
                assert(is_ws(t[a - from]));
                assert(!is_ws(s@[a as int]));
            }
        }
    }
    let ghost u = trim_start(t);
    assert(u =~= s@.subrange(a as int, to as int));
    let mut b = to;
    while b > a && char_is_ws(s[b - 1])
        invariant
            a <= b <= to,
            to <= s@.len(),
            forall|i: int| b <= i < to ==> is_ws(s@[i]),
        decreases b - a,
    {
        b -= 1;
    }
    proof {
        lemma_ws_suffix(u);
        assert(ws_suffix_len(u) == to - b) by {
            if ws_suffix_len(u) < to - b {
                assert(is_ws(u[u.len() - ws_suffix_len(u) - 1]));
            } else if ws_suffix_len(u) > to - b {
                assert(is_ws(u[b - a - 1]));
            }
        }
        assert(trim_end(u) =~= s@.subrange(a as int, b as int));
    }
    string_of(s, a, b)
}

/// Decimal digits of a `u32` text as accepted by `str::parse::<u32>`: an
/// optional `+`, then one or more ASCII digits, value below 2^32.
pub open spec fn digits_value(s: Seq<char>) -> int
    decreases s.len(),
{
    if s.len() == 0 { 0 } else { digits_value(s.drop_last()) * 10 + (s.last() as int - '0' as int) }
}

pub open spec fn all_digits(s: Seq<char>) -> bool {
    forall|i: int| 0 <= i < s.len() ==> '0' <= #[trigger] s[i] && s[i] <= '9'
}

/// What `str::parse::<u32>` gives for a text.
pub open spec fn parse_u32(s: Seq<char>) -> Option<u32> {
    let d = if s.len() > 0 && s[0] == '+' { s.drop_first() } else { s };
    if d.len() > 0 && all_digits(d) && digits_value(d) <= u32::MAX {
        Some(digits_value(d) as u32)
    } else {
        None
    }
}

proof fn lemma_digits_mono(s: Seq<char>)
    requires
        all_digits(s),
    ensures
        digits_value(s) >= 0,
        s.len() > 0 ==> digits_value(s) >= digits_value(s.drop_last()),
    decreases s.len(),
{
    if s.len() > 0 {
        assert(all_digits(s.drop_last())) by {
            assert forall|i: int| 0 <= i < s.drop_last().len() implies '0' <= #[trigger] s.drop_last()[i]
                && s.drop_last()[i] <= '9' by {
                assert(s.drop_last()[i] == s[i]);
            }
        }
        lemma_digits_mono(s.drop_last());
        assert('0' <= s[s.len() - 1] <= '9');
    }
}

/// Parse a `u32` from `s[from..to]` as `str::parse::<u32>` does.
pub fn parse_u32_chars(s: &Vec<char>, from: usize, to: usize) -> (r: Option<u32>)
    requires
        from <= to <= s@.len(),
    ensures
        r == parse_u32(s@.subrange(from as int, to as int)),
{
    let ghost t = s@.subrange(from as int, to as int);
    let mut i = from;
    if i < to && s[i] == '+' {
        i += 1;
    }
    let ghost d = s@.subrange(i as int, to as int);
    assert(d =~= (if t.len() > 0 && t[0] == '+' { t.drop_first() } else { t }));
    if i == to {
        return None;
    }
    let mut v: u64 = 0;
    let start = i;
    while i < to
        invariant
            from <= start <= i <= to,
            to <= s@.len(),
            t == s@.subrange(from as int, to as int),
            d == (if t.len() > 0 && t[0] == '+' { t.drop_first() } else { t }),
            d == s@.subrange(start as int, to as int),
            all_digits(s@.subrange(start as int, i as int)),
            v == digits_value(s@.subrange(start as int, i as int)),
            v <= u32::MAX,
        decreases to - i,
    {
        let c = s[i];
        if !('0' <= c && c <= '9') {
            assert(d[i - start] == c);
            assert(!all_digits(d));
            return None;
        }
        let ghost prev = s@.subrange(start as int, i as int);
        let ghost next = s@.subrange(start as int, i + 1);
        assert(next.drop_last() =~= prev);
        assert(all_digits(next)) by {
            assert forall|j: int| 0 <= j < next.len() implies '0' <= #[trigger] next[j] && next[j] <= '9' by {
                if j < prev.len() {
                    assert(next[j] == prev[j]);
                }
            }
        }
        let dv = (c as u32 - '0' as u32) as u64;
        assert(dv == next.last() as int - '0' as int);
        let nv = v * 10 + dv;
        if nv > 0xFFFF_FFFFu64 {
            proof {
                assert(digits_value(next) == digits_value(prev) * 10 + dv);
                assert(d.take(i + 1 - start) =~= next);
                lemma_digits_prefix_bound(d, (i + 1 - start) as int);
            }
            return None;
        }
        v = nv;
        i += 1;
    }
    assert(s@.subrange(start as int, to as int) =~= d);
    Some(v as u32)
}

proof fn lemma_digits_prefix_bound(d: Seq<char>, k: int)
    requires
        0 < k <= d.len(),
        all_digits(d.take(k)),
        digits_value(d.take(k)) > u32::MAX,
    ensures
        !(all_digits(d) && digits_value(d) <= u32::MAX),
    decreases d.len() - k,
{
    if all_digits(d) {
        if k < d.len() {
            assert(d.take(k + 1).drop_last() =~= d.take(k));
            assert(all_digits(d.take(k + 1))) by {
                assert forall|j: int| 0 <= j < d.take(k + 1).len() implies '0' <= #[trigger] d.take(k + 1)[j]
                    && d.take(k + 1)[j] <= '9' by {
                    assert(d.take(k + 1)[j] == d[j]);
                }
            }
            lemma_digits_mono(d.take(k + 1));
            lemma_digits_prefix_bound(d, k + 1);
        } else {
            assert(d.take(k) =~= d);
        }
    }
}

/// Decimal digits of a natural number, most significant first, no leading zeros.
pub open spec fn decimal(n: nat) -> Seq<char>
    decreases n,
{
    if n < 10 {
        seq![(('0' as int) + n) as char]
    } else {
        decimal(n / 10) + seq![(('0' as int) + (n % 10)) as char]
    }
}

/// Decimal text of a number (`to_string` of an unsigned integer).
pub fn u64_to_string(n: u64) -> (s: String)
    ensures
        s@ == decimal(n as nat),
    decreases n,
{
    let d = (n % 10) as u8;
    let c = (0x30u8 + d) as char;
    if n < 10 {
        let mut s = String::new();
        push_char(&mut s, c);
        assert(s@ =~= decimal(n as nat));
        s
    } else {
        let mut s = u64_to_string(n / 10);
        push_char(&mut s, c);
        assert(s@ =~= decimal(n as nat));
        s
    }
}

/// The lines of a text as `str::lines` yields them: split at `\n`, a final
/// empty piece (the text ends with `\n`, or is empty) dropped, and a `\r`
/// that ended a piece followed by `\n` removed.
pub open spec fn lines(s: Seq<char>) -> Seq<Seq<char>> {
    let p = split_char(s, '\n');
    let q = if p.len() > 0 && p.last().len() == 0 { p.drop_last() } else { p };
    Seq::new(q.len(), |i: int| if i < p.len() - 1 && q[i].len() > 0 && q[i].last() == '\r' {
        q[i].drop_last() } else { q[i] })
}

pub proof fn lemma_split_nonempty(s: Seq<char>, sep: char)
    ensures
        split_char(s, sep).len() >= 1,
    decreases s.len(),
{
    lemma_char_pos(s, sep);
    if let Some(i) = find(s, seq![sep]) {
        if 0 <= i < s.len() {
            lemma_split_nonempty(s.skip(i + 1), sep);
        }
    }
}

/// The lines of a text (see [`lines`]).
pub fn lines_of(s: &str) -> (r: Vec<String>)
    ensures
        r@.map_values(|x: String| x@) == lines(s@),
{
    let cs = chars_of(s);
    let pieces = split_chars(&cs, '\n');
    let ghost pv = pieces@.map_values(|x: String| x@);
    proof {
        lemma_split_nonempty(s@, '\n');
    }
    let np = pieces.len();
    let last_empty = pieces[np - 1].unicode_len() == 0;
    let nq = if last_empty { np - 1 } else { np };
    let ghost q = if pv.len() > 0 && pv.last().len() == 0 { pv.drop_last() } else { pv };
    assert(pv[np - 1] == pieces@[np - 1]@);
    assert(q.len() == nq);
    let mut out: Vec<String> = Vec::new();
    let mut i: usize = 0;
    while i < nq
        invariant
            np == pv.len(),
            np >= 1,
            nq <= np,
            q.len() == nq,
            pv == pieces@.map_values(|x: String| x@),
            forall|j: int| 0 <= j < nq ==> q[j] == pv[j],
            i <= nq,
            out@.len() == i,
            forall|j: int| 0 <= j < i ==> (#[trigger] out@[j])@ == (if j < pv.len() - 1 && q[j].len() > 0
                && q[j].last() == '\r' { q[j].drop_last() } else { q[j] }),
        decreases nq - i,
    {
        let pc = chars_of(pieces[i].as_str());
        assert(pc@ == q[i as int]);
        let n = pc.len();
        if i + 1 < np && n > 0 && pc[n - 1] == '\r' {
            let t = string_of(&pc, 0, n - 1);
            assert(pc@.subrange(0, n - 1) =~= pc@.drop_last());
            out.push(t);
        } else {
            let t = string_of(&pc, 0, n);
            assert(pc@.subrange(0, n as int) =~= pc@);
            out.push(t);
        }
        i += 1;
    }
    assert(out@.map_values(|x: String| x@) =~= lines(s@));
    out
}

/// What `str::parse::<u64>` gives for a text.
pub open spec fn parse_u64(s: Seq<char>) -> Option<u64> {
    let d = if s.len() > 0 && s[0] == '+' { s.drop_first() } else { s };
    if d.len() > 0 && all_digits(d) && digits_value(d) <= u64::MAX {
        Some(digits_value(d) as u64)
    } else {
        None
    }
}

/// Parse a `u64` from `s[from..to]` as `str::parse::<u64>` does.
pub fn parse_u64_chars(s: &Vec<char>, from: usize, to: usize) -> (r: Option<u64>)
    requires
        from <= to <= s@.len(),
    ensures
        r == parse_u64(s@.subrange(from as int, to as int)),
{
    let ghost t = s@.subrange(from as int, to as int);
    let mut i = from;
    if i < to && s[i] == '+' {
        i += 1;
    }
    let ghost d = s@.subrange(i as int, to as int);
    assert(d =~= (if t.len() > 0 && t[0] == '+' { t.drop_first() } else { t }));
    if i == to {
        return None;
    }
    let mut v: u64 = 0;
    let start = i;
    while i < to
        invariant
            from <= start <= i <= to,
            to <= s@.len(),
            t == s@.subrange(from as int, to as int),
            d == (if t.len() > 0 && t[0] == '+' { t.drop_first() } else { t }),
            d == s@.subrange(start as int, to as int),
            all_digits(s@.subrange(start as int, i as int)),
            v == digits_value(s@.subrange(start as int, i as int)),
        decreases to - i,
    {
        let c = s[i];
        if !('0' <= c && c <= '9') {
            assert(d[i - start] == c);
            assert(!all_digits(d));
            return None;
        }
        let ghost prev = s@.subrange(start as int, i as int);
        let ghost next = s@.subrange(start as int, i + 1);
        assert(next.drop_last() =~= prev);
        assert(all_digits(next)) by {
            assert forall|j: int| 0 <= j < next.len() implies '0' <= #[trigger] next[j] && next[j] <= '9' by {
                if j < prev.len() {
                    assert(next[j] == prev[j]);
                }
            }
        }
        let dv = (c as u32 - '0' as u32) as u64;
        assert(dv == next.last() as int - '0' as int);
        if v > (u64::MAX - dv) / 10 {
            proof {
                assert(digits_value(next) == digits_value(prev) * 10 + dv);
                assert(digits_value(next) > u64::MAX) by (nonlinear_arith)
                    requires digits_value(next) == v * 10 + dv, v > (u64::MAX - dv) / 10, dv <= 9;
                assert(d.take(i + 1 - start) =~= next);
                lemma_digits_prefix_bound64(d, (i + 1 - start) as int);
            }
            return None;
        }
        assert(v * 10 + dv <= u64::MAX) by (nonlinear_arith)
            requires v <= (u64::MAX - dv) / 10, dv <= 9;
        v = v * 10 + dv;
        i += 1;
    }
    assert(s@.subrange(start as int, to as int) =~= d);
    Some(v)
}

proof fn lemma_digits_prefix_bound64(d: Seq<char>, k: int)
    requires
        0 < k <= d.len(),
        all_digits(d.take(k)),
        digits_value(d.take(k)) > u64::MAX,
    ensures
        !(all_digits(d) && digits_value(d) <= u64::MAX),
    decreases d.len() - k,
{
    if all_digits(d) {
        if k < d.len() {
            assert(d.take(k + 1).drop_last() =~= d.take(k));
            assert(all_digits(d.take(k + 1))) by {
                assert forall|j: int| 0 <= j < d.take(k + 1).len() implies '0' <= #[trigger] d.take(k + 1)[j]
                    && d.take(k + 1)[j] <= '9' by {
                    assert(d.take(k + 1)[j] == d[j]);
                }
            }
            lemma_digits_mono(d.take(k + 1));
            lemma_digits_prefix_bound64(d, k + 1);
        } else {
            assert(d.take(k) =~= d);
        }
    }
}


/// `s[i..]` with each occurrence of `from` replaced by `to`, scanning left to
/// right and not re-scanning a replacement (for a non-empty `from`).
pub open spec fn replaced_from(s: Seq<char>, from: Seq<char>, to: Seq<char>, i: int) -> Seq<char>
    decreases s.len() - i,
{
    if i < 0 || i >= s.len() || from.len() == 0 {
        Seq::empty()
    } else if occurs_at(s, from, i) {
        to + replaced_from(s, from, to, i + from.len())
    } else {
        seq![s[i]] + replaced_from(s, from, to, i + 1)
    }
}

/// `s` with every occurrence of the non-empty `from` replaced by `to`.
pub open spec fn replaced(s: Seq<char>, from: Seq<char>, to: Seq<char>) -> Seq<char> {
    replaced_from(s, from, to, 0)
}

/// `s` with every occurrence of `from` replaced by `to`.
pub fn replace_all(s: &str, from: &str, to: &str) -> (r: String)
    requires
        from@.len() > 0,
    ensures
        r@ == replaced(s@, from@, to@),
{
    let sv = chars_of(s);
    let fv = chars_of(from);
    let n = sv.len();
    let mut out = String::new();
    let mut i: usize = 0;
    while i < n
        invariant
            n == sv@.len(),
            sv@ == s@,
            fv@ == from@,
            fv@.len() > 0,
            i <= n,
            out@ + replaced_from(sv@, fv@, to@, i as int) == replaced(sv@, fv@, to@),
        decreases n - i,
    {
        let hit = fv.len() <= n - i && occurs_at_exec(&sv, &fv, i);
        if hit {
            assert(out@ + to@ + replaced_from(sv@, fv@, to@, i + fv@.len())
                =~= out@ + replaced_from(sv@, fv@, to@, i as int));
            push_str(&mut out, to);
            i = i + fv.len();
        } else {
            assert(!occurs_at(sv@, fv@, i as int));
            assert(out@ + seq![sv@[i as int]] + replaced_from(sv@, fv@, to@, i + 1)
                =~= out@ + replaced_from(sv@, fv@, to@, i as int));
            push_char(&mut out, sv[i]);
            i = i + 1;
        }
    }
    assert(out@ =~= out@ + replaced_from(sv@, fv@, to@, i as int));
    out
}


/// The pieces of `s` between occurrences of `sep`, scanning left to right
/// (`str::split` with a non-empty pattern).
pub open spec fn split_on(s: Seq<char>, sep: Seq<char>) -> Seq<Seq<char>>
    decreases s.len(),
{
    if sep.len() == 0 {
        seq![s]
    } else {
        match find(s, sep) {
            None => seq![s],
            Some(i) => if 0 <= i && i + sep.len() <= s.len() {
                seq![s.take(i)] + split_on(s.skip(i + sep.len()), sep)
            } else {
                seq![s]
            },
        }
    }
}

/// Searching the suffix from `start` finds what searching the whole from
/// `start` finds, shifted.
pub proof fn lemma_find_skip(s: Seq<char>, sep: Seq<char>, start: int)
    requires
        0 <= start <= s.len(),
    ensures
        find(s.skip(start), sep) matches Some(j) ==> find_from(s, sep, start) == Some(start + j),
        find(s.skip(start), sep) is None ==> find_from(s, sep, start) is None,
{
    let t = s.skip(start);
    assert forall|j: int| j >= 0 implies (occurs_at(t, sep, j) <==> occurs_at(s, sep, start + j)) by {
        if j + sep.len() <= t.len() {
            assert(t.subrange(j, j + sep.len()) =~= s.subrange(start + j, start + j + sep.len()));
        }
    }
    lemma_find_from(t, sep, 0);
    lemma_find_from(s, sep, start);
    match find(t, sep) {
        Some(j) => {
            match find_from(s, sep, start) {
                Some(k) => {
                    if k < start + j {
                        assert(occurs_at(t, sep, k - start));
                    } else if k > start + j {
                        assert(occurs_at(s, sep, start + j));
                    }
                },
                None => {
                    assert(occurs_at(s, sep, start + j));
                },
            }
        },
        None => {
            match find_from(s, sep, start) {
                Some(k) => {
                    assert(occurs_at(t, sep, k - start));
                },
                None => {},
            }
        },
    }
}

/// The pieces of `s` between occurrences of the non-empty `sep`.
pub fn split_on_chars(s: &Vec<char>, sep: &Vec<char>) -> (r: Vec<String>)
    requires
        sep@.len() > 0,
    ensures
        r@.map_values(|x: String| x@) == split_on(s@, sep@),
{
    let mut out: Vec<String> = Vec::new();
    let mut start: usize = 0;
    let ghost whole = split_on(s@, sep@);
    let sl = s.len();
    assert(s@.skip(0) =~= s@);
    assert(out@.map_values(|x: String| x@) + whole =~= whole);
    let mut done = false;
    while !done
        invariant
            s@.len() == sl,
            sep@.len() > 0,
            start <= s@.len(),
            !done ==> whole == out@.map_values(|x: String| x@) + split_on(s@.skip(start as int), sep@),
            done ==> whole == out@.map_values(|x: String| x@),
        decreases s@.len() - start + (if done { 0int } else { 1int }),
    {
        let ghost rest = s@.skip(start as int);
        let ghost before = out@;
        proof {
            lemma_find_skip(s@, sep@, start as int);
            lemma_find_from(s@, sep@, start as int);
        }
        match find_chars(s, sep, start) {
            Some(k) => {
                proof {
                    assert(find(rest, sep@) == Some(k - start)) by {
                        if find(rest, sep@) is None {
                        }
                    }
                    assert(rest.take(k - start) =~= s@.subrange(start as int, k as int));
                    assert(rest.skip(k - start + sep@.len()) =~= s@.skip(k + sep@.len()));
                    assert(split_on(rest, sep@) == seq![rest.take(k - start)] + split_on(
                        rest.skip(k - start + sep@.len()),
                        sep@,
                    ));
                }
                out.push(string_of(s, start, k));
                proof {
                    assert(out@.map_values(|x: String| x@) =~= before.map_values(|x: String| x@).push(
                        s@.subrange(start as int, k as int),
                    ));
                    assert(before.map_values(|x: String| x@) + split_on(rest, sep@) =~= out@.map_values(
                        |x: String| x@,
                    ) + split_on(s@.skip(k + sep@.len()), sep@));
                }
                start = k + sep.len();
            },
            None => {
                proof {
                    assert(split_on(rest, sep@) == seq![rest]);
                    assert(rest =~= s@.subrange(start as int, s@.len() as int));
                }
                out.push(string_of(s, start, s.len()));
                proof {
                    assert(out@.map_values(|x: String| x@) =~= before.map_values(|x: String| x@).push(rest));
                }
                done = true;
            },
        }
    }
    out
}


/// Number of leading characters that are not white space.
pub open spec fn word_len(s: Seq<char>) -> nat
    decreases s.len(),
{
    if s.len() > 0 && !is_ws(s[0]) { 1 + word_len(s.drop_first()) } else { 0 }
}

pub proof fn lemma_word_len(s: Seq<char>)
    ensures
        word_len(s) <= s.len(),
        s.len() > 0 && !is_ws(s[0]) ==> word_len(s) >= 1,
    decreases s.len(),
{
    if s.len() > 0 && !is_ws(s[0]) {
        lemma_word_len(s.drop_first());
    }
}

/// The words of a text as `str::split_whitespace` yields them: the maximal
/// runs of characters that are not white space, in order.
pub open spec fn words(s: Seq<char>) -> Seq<Seq<char>>
    decreases s.len(),
{
    let t = trim_start(s);
    if t.len() == 0 {
        Seq::empty()
    } else {
        proof {
            lemma_ws_prefix(s);
            lemma_word_len(t);
        }
        let k = word_len(t);
        seq![t.take(k as int)] + words(t.skip(k as int))
    }
}

proof fn lemma_ws_prefix_exact(t: Seq<char>, m: int)
    requires
        0 <= m <= t.len(),
        forall|k: int| 0 <= k < m ==> is_ws(#[trigger] t[k]),
        m == t.len() || !is_ws(t[m]),
    ensures
        ws_prefix_len(t) == m,
    decreases m,
{
    if m > 0 {
        assert forall|k: int| 0 <= k < m - 1 implies is_ws(#[trigger] t.drop_first()[k]) by {
            assert(t.drop_first()[k] == t[k + 1]);
        }
        if m < t.len() {
            assert(t.drop_first()[m - 1] == t[m]);
        }
        lemma_ws_prefix_exact(t.drop_first(), m - 1);
    }
}

proof fn lemma_word_len_exact(t: Seq<char>, m: int)
    requires
        0 <= m <= t.len(),
        forall|k: int| 0 <= k < m ==> !is_ws(#[trigger] t[k]),
        m == t.len() || is_ws(t[m]),
    ensures
        word_len(t) == m,
    decreases m,
{
    if m > 0 {
        assert forall|k: int| 0 <= k < m - 1 implies !is_ws(#[trigger] t.drop_first()[k]) by {
            assert(t.drop_first()[k] == t[k + 1]);
        }
        if m < t.len() {
            assert(t.drop_first()[m - 1] == t[m]);
        }
        lemma_word_len_exact(t.drop_first(), m - 1);
    }
}

/// The words of a text (see [`words`]).
pub fn words_of(s: &str) -> (r: Vec<String>)
    ensures
        r@.map_values(|x: String| x@) == words(s@),
{
    let cs = chars_of(s);
    let n = cs.len();
    let mut out: Vec<String> = Vec::new();
    let mut i: usize = 0;
    assert(cs@.skip(0) =~= cs@);
    while i < n
        invariant
            n == cs@.len(),
            cs@ == s@,
            i <= n,
            words(s@) == out@.map_values(|x: String| x@) + words(cs@.skip(i as int)),
        decreases n - i,
    {
        let ghost rest = cs@.skip(i as int);
        let mut j = i;
        while j < n && char_is_ws(cs[j])
            invariant
                i <= j <= n,
                n == cs@.len(),
                forall|k: int| i <= k < j ==> is_ws(#[trigger] cs@[k]),
            decreases n - j,
        {
            j += 1;
        }
        proof {
            assert forall|k: int| 0 <= k < j - i implies is_ws(#[trigger] rest[k]) by {
                assert(rest[k] == cs@[i + k]);
            }
            if j < n {
                assert(rest[j - i] == cs@[j as int]);
            }
            lemma_ws_prefix_exact(rest, j - i);
            assert(trim_start(rest) =~= cs@.skip(j as int));
        }
        if j == n {
            assert(words(rest) =~= Seq::<Seq<char>>::empty());
            i = n;
            assert(cs@.skip(i as int) =~= Seq::<char>::empty());
            assert(words(cs@.skip(i as int)) =~= Seq::<Seq<char>>::empty());
        } else {
            let mut e = j;
            while e < n && !char_is_ws(cs[e])
                invariant
                    j <= e <= n,
                    n == cs@.len(),
                    forall|k: int| j <= k < e ==> !is_ws(#[trigger] cs@[k]),
                decreases n - e,
            {
                e += 1;
            }
            let ghost t = cs@.skip(j as int);
            proof {
                assert forall|k: int| 0 <= k < e - j implies !is_ws(#[trigger] t[k]) by {
                    assert(t[k] == cs@[j + k]);
                }
                if e < n {
                    assert(t[e - j] == cs@[e as int]);
                }
                lemma_word_len_exact(t, e - j);
                assert(t.take(e - j) =~= cs@.subrange(j as int, e as int));
                assert(t.skip(e - j) =~= cs@.skip(e as int));
                assert(t[0] == cs@[j as int]);
                assert(words(rest) == seq![t.take(e - j)] + words(t.skip(e - j)));
            }
            let w = string_of(&cs, j, e);
            let ghost before = out@.map_values(|x: String| x@);
            out.push(w);
            assert(out@.map_values(|x: String| x@) =~= before.push(cs@.subrange(j as int, e as int)));
            assert(before + words(rest) =~= out@.map_values(|x: String| x@) + words(cs@.skip(e as int)));
            i = e;
        }
    }
    assert(cs@.skip(n as int) =~= Seq::<char>::empty());
    assert(words(cs@.skip(n as int)) =~= Seq::<Seq<char>>::empty());
    assert(out@.map_values(|x: String| x@) + Seq::<Seq<char>>::empty() =~= out@.map_values(|x: String| x@));
    out
}

} // verus!
