//! Slash-separated paths held as strings.
//!
//! Paths are compared and split by their `/`-separated components; a path
//! given without a trailing separator is assumed throughout.
use vstd::prelude::*;
use crate::text::{chars_of, string_of, slice_string, concat, has_prefix, has_suffix};

verus! {

pub open spec fn is_absolute(p: Seq<char>) -> bool {
    p.len() > 0 && p[0] == '/'
}

/// `rel` appended to `base` with one separator; an absolute `rel` replaces `base`.
pub open spec fn join_path(base: Seq<char>, rel: Seq<char>) -> Seq<char> {
    if is_absolute(rel) || base.len() == 0 {
        rel
    } else if base.last() == '/' {
        base + rel
    } else {
        base + seq!['/'] + rel
    }
}

/// The index of the last `/` in `p`, or -1.
pub open spec fn last_sep(p: Seq<char>) -> int
    decreases p.len(),
{
    if p.len() == 0 {
        -1
    } else if p.last() == '/' {
        p.len() - 1
    } else {
        last_sep(p.drop_last())
    }
}

/// The path without its last component.
pub open spec fn parent_path(p: Seq<char>) -> Option<Seq<char>> {
    let k = last_sep(p);
    if p.len() == 0 {
        None
    } else if k < 0 {
        Some(Seq::empty())
    } else if k == 0 {
        if p.len() == 1 {
            None
        } else {
            Some(seq!['/'])
        }
    } else {
        Some(p.subrange(0, k))
    }
}

/// The last component of the path, if it is not empty.
pub open spec fn file_name_of(p: Seq<char>) -> Option<Seq<char>> {
    let n = p.subrange(last_sep(p) + 1, p.len() as int);
    if n.len() == 0 {
        None
    } else {
        Some(n)
    }
}

/// Whether the components of `base` are the first components of `p`.
pub open spec fn path_starts_with(p: Seq<char>, base: Seq<char>) -> bool {
    base.len() == 0 || p == base || (has_prefix(p, base) && (base.last() == '/'
        || p[base.len() as int] == '/'))
}

/// What remains of `p` after the components of `base`.
pub open spec fn strip_path_prefix(p: Seq<char>, base: Seq<char>) -> Option<Seq<char>> {
    if p == base {
        Some(Seq::empty())
    } else if base.len() == 0 {
        Some(p)
    } else if has_prefix(p, base) && base.last() == '/' {
        Some(p.subrange(base.len() as int, p.len() as int))
    } else if has_prefix(p, base) && p[base.len() as int] == '/' {
        Some(p.subrange(base.len() as int + 1, p.len() as int))
    } else {
        None
    }
}

pub(crate) proof fn lemma_last_sep(p: Seq<char>)
    ensures
        -1 <= last_sep(p) < p.len(),
        last_sep(p) >= 0 ==> p[last_sep(p)] == '/',
        forall|j: int| last_sep(p) < j < p.len() ==> p[j] != '/',
    decreases p.len(),
{
    if p.len() > 0 && p.last() != '/' {
        let q = p.drop_last();
        lemma_last_sep(q);
        assert forall|j: int| last_sep(p) < j < p.len() implies p[j] != '/' by {
            if j < p.len() - 1 {
                assert(p[j] == q[j]);
            }
        }
        if last_sep(p) >= 0 {
            assert(p[last_sep(p)] == q[last_sep(q)]);
        }
    }
}

fn find_last_sep(v: &Vec<char>) -> (r: Option<usize>)
    ensures
        r matches Some(k) ==> k as int == last_sep(v@),
        r is None ==> last_sep(v@) == -1,
{
    let mut i: usize = v.len();
    proof {
        lemma_full_range(v@);
    }
    while i > 0
        invariant
            0 <= i <= v.len(),
            last_sep(v@) == last_sep(v@.subrange(0, i as int)),
        decreases i,
    {
        assert(v@.subrange(0, i as int).drop_last() == v@.subrange(0, i - 1));
        if v[i - 1] == '/' {
            return Some(i - 1);
        }
        i = i - 1;
    }
    None
}

proof fn lemma_full_range(p: Seq<char>)
    ensures
        p.subrange(0, p.len() as int) == p,
{
    assert(p.subrange(0, p.len() as int) =~= p);
}

/// `rel` appended to `base` (see `join_path`).
pub fn join(base: &str, rel: &str) -> (r: String)
    ensures
        r@ == join_path(base@, rel@),
{
    let b = chars_of(base);
    let rv = chars_of(rel);
    if (rv.len() > 0 && rv[0] == '/') || b.len() == 0 {
        return string_of(&rv);
    }
    if b[b.len() - 1] == '/' {
        concat(base, rel)
    } else {
        let with_sep = concat(base, "/");
        proof {
            reveal_strlit("/");
        }
        concat(&with_sep, rel)
    }
}

/// The path without its last component (see `parent_path`).
pub fn parent(p: &str) -> (r: Option<String>)
    ensures
        r matches Some(s) ==> parent_path(p@) == Some(s@),
        r is None ==> parent_path(p@) is None,
{
    let v = chars_of(p);
    if v.len() == 0 {
        return None;
    }
    proof {
        lemma_last_sep(v@);
    }
    match find_last_sep(&v) {
        None => Some(String::new()),
        Some(k) => {
            if k == 0 {
                if v.len() == 1 {
                    None
                } else {
                    let r = string_of(&vec!['/']);
                    assert(r@ =~= seq!['/']);
                    Some(r)
                }
            } else {
                Some(slice_string(&v, 0, k))
            }
        },
    }
}

/// The last component of the path (see `file_name_of`).
pub fn file_name(p: &str) -> (r: Option<String>)
    ensures
        r matches Some(s) ==> file_name_of(p@) == Some(s@),
        r is None ==> file_name_of(p@) is None,
{
    let v = chars_of(p);
    proof {
        lemma_last_sep(v@);
    }
    let start: usize = match find_last_sep(&v) {
        None => 0,
        Some(k) => k + 1,
    };
    if start == v.len() {
        None
    } else {
        Some(slice_string(&v, start, v.len()))
    }
}

/// Whether `p` lies at or below `base` (see `path_starts_with`).
pub fn starts_with_path(p: &str, base: &str) -> (r: bool)
    ensures
        r == path_starts_with(p@, base@),
{
    let v = chars_of(p);
    let b = chars_of(base);
    if b.len() == 0 {
        return true;
    }
    if !crate::text::matches_at(&v, &b, 0) {
        proof { lemma_full_range(v@); }
        return false;
    }
    if v.len() == b.len() {
        assert(v@ =~= v@.subrange(0, b.len() as int));
        return true;
    }
    b[b.len() - 1] == '/' || v[b.len()] == '/'
}

/// What remains of `p` below `base` (see `strip_path_prefix`).
pub fn strip_prefix(p: &str, base: &str) -> (r: Option<String>)
    ensures
        r matches Some(s) ==> strip_path_prefix(p@, base@) == Some(s@),
        r is None ==> strip_path_prefix(p@, base@) is None,
{
    let v = chars_of(p);
    let b = chars_of(base);
    if !crate::text::matches_at(&v, &b, 0) {
        proof {
            lemma_full_range(v@);
            assert(b@.len() == 0 ==> v@.subrange(0, 0) =~= b@);
        }
        return None;
    }
    if v.len() == b.len() {
        assert(v@ =~= b@) by {
            assert(v@ =~= v@.subrange(0, b.len() as int));
        }
        return Some(String::new());
    }
    if b.len() == 0 {
        proof { lemma_full_range(v@); }
        return Some(string_of(&v));
    }
    assert(v@ != b@);
    if b[b.len() - 1] == '/' {
        Some(slice_string(&v, b.len(), v.len()))
    } else if v[b.len()] == '/' {
        Some(slice_string(&v, b.len() + 1, v.len()))
    } else {
        None
    }
}


/// Whether `s` begins with a `~` that names the current user's home.
pub open spec fn names_home(s: Seq<char>) -> bool {
    s.len() > 0 && s[0] == '~' && (s.len() == 1 || s[1] == '/')
}

/// Relies on shellexpand::tilde: a leading `~` alone or before `/` becomes
/// the home directory when one is known; any other text is returned as it
/// stands.
#[verifier::external_body]
pub(crate) fn expand_tilde(s: &str) -> (r: String)
    ensures
        !names_home(s@) ==> r@ == s@,
        names_home(s@) ==> r@ == s@ || has_suffix(r@, s@.drop_first()),
{
    shellexpand::tilde(s).into_owned()
}

/// Relies on dirs::home_dir: the current user's home directory, if known.
#[verifier::external_body]
pub(crate) fn home_dir() -> (r: Option<String>) {
    dirs::home_dir().map(|p| p.to_string_lossy().into_owned())
}

/// Relies on dirs::config_dir: the user's configuration directory, if known.
#[verifier::external_body]
pub(crate) fn config_dir() -> (r: Option<String>) {
    dirs::config_dir().map(|p| p.to_string_lossy().into_owned())
}

} // verus!
