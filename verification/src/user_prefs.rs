//! Where per-user preferences are stored: a directory named after the user,
//! with the name sanitised so that it cannot leave the users directory.
use vstd::prelude::*;

verus! {

/// `char::is_alphanumeric`: Unicode `Alphabetic` or `Numeric`.
pub uninterp spec fn unicode_alphanumeric(c: char) -> bool;

/// std `char::is_alphanumeric`. Path separators and the period are neither
/// alphabetic nor numeric.
#[verifier::external_body]
fn is_alphanumeric(c: char) -> (r: bool)
    ensures
        r == unicode_alphanumeric(c),
        r ==> c != '/' && c != '\\' && c != '.',
{
    c.is_alphanumeric()
}

/// A character kept in a user's directory name.
pub open spec fn kept_in_name(c: char) -> bool {
    unicode_alphanumeric(c) || c == '_' || c == '-'
}

/// The user's directory name: the username with every other character
/// dropped; none when nothing is left.
pub open spec fn prefs_dir_name_of(username: Seq<char>) -> Option<Seq<char>> {
    let kept = username.filter(|c: char| kept_in_name(c));
    if kept.len() == 0 { None } else { Some(kept) }
}

/// The name of the directory under `users/` that holds a user's
/// preferences (see [`prefs_dir_name_of`]).
pub fn prefs_dir_name(username: &str) -> (r: Option<String>)
    ensures
        match r {
            Some(s) => prefs_dir_name_of(username@) == Some(s@),
            None => prefs_dir_name_of(username@) is None,
        },
        r matches Some(s) ==> forall|i: int| 0 <= i < s@.len() ==> #[trigger] s@[i] != '/' && s@[i] != '\\' && s@[i]
            != '.',
{
    let n = username.unicode_len();
    let mut out = String::new();
    let mut i: usize = 0;
    while i < n
        invariant
            n == username@.len(),
            i <= n,
            out@ == username@.take(i as int).filter(|c: char| kept_in_name(c)),
            forall|j: int| 0 <= j < out@.len() ==> #[trigger] out@[j] != '/' && out@[j] != '\\' && out@[j] != '.',
        decreases n - i,
    {
        let c = username.get_char(i);
        let keep = is_alphanumeric(c) || c == '_' || c == '-';
        proof {
            reveal(Seq::filter);
            assert(username@.take(i + 1).drop_last() =~= username@.take(i as int));
        }
        if keep {
            crate::text::push_char(&mut out, c);
        }
        i += 1;
    }
    assert(username@.take(n as int) =~= username@);
    if out.as_str().unicode_len() == 0 {
        None
    } else {
        Some(out)
    }
}

/// Law: every character of a user's preferences directory name is
/// alphanumeric, `_` or `-`.
pub proof fn law_prefs_dir_stays_put(username: Seq<char>)
    ensures
        prefs_dir_name_of(username) matches Some(d) ==> forall|i: int| 0 <= i < d.len() ==> #[trigger] kept_in_name(
            d[i],
        ),
{
    let kept = username.filter(|c: char| kept_in_name(c));
    assert forall|i: int| 0 <= i < kept.len() implies #[trigger] kept_in_name(kept[i]) by {
        username.lemma_filter_pred(|c: char| kept_in_name(c), i);
    }
}

} // verus!
