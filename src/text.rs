use vstd::prelude::*;

verus! {

/// The characters of `s`, in order.
pub fn chars_of(s: &str) -> (r: Vec<char>)
    ensures
        r@ == s@,
{
    let mut out: Vec<char> = Vec::new();
    for c in it: s.chars()
        invariant
            out@ == it.seq().subrange(0, it.index() as int),
    {
        out.push(c);
    }
    out
}

/// Whether two strings hold the same characters.
pub fn str_eq(a: &str, b: &str) -> (r: bool)
    ensures
        r == (a@ == b@),
{
    let x = chars_of(a);
    let y = chars_of(b);
    if x.len() != y.len() {
        return false;
    }
    let mut i: usize = 0;
    while i < x.len()
        invariant
            x@ == a@,
            y@ == b@,
            x.len() == y.len(),
            0 <= i <= x.len(),
            x@.subrange(0, i as int) == y@.subrange(0, i as int),
        decreases x.len() - i,
    {
        if x[i] != y[i] {
            assert(x@[i as int] != y@[i as int]);
            return false;
        }
        assert(x@.subrange(0, i + 1) == x@.subrange(0, i as int).push(x@[i as int]));
        assert(y@.subrange(0, i + 1) == y@.subrange(0, i as int).push(y@[i as int]));
        i = i + 1;
    }
    assert(x@ == x@.subrange(0, x.len() as int));
    assert(y@ == y@.subrange(0, y.len() as int));
    true
}


/// Relies on `String`'s `FromIterator<char>`: the characters in order.
#[verifier::external_body]
pub(crate) fn string_of(v: &Vec<char>) -> (r: String)
    ensures
        r@ == v@,
{
    v.iter().collect()
}

/// A string holding the characters of `s`.
pub fn owned(s: &str) -> (r: String)
    ensures
        r@ == s@,
{
    s.to_owned()
}

/// Whether `p` begins with `q`.
pub open spec fn has_prefix(p: Seq<char>, q: Seq<char>) -> bool {
    q.len() <= p.len() && p.subrange(0, q.len() as int) == q
}

/// Whether `p` ends with `q`.
pub open spec fn has_suffix(p: Seq<char>, q: Seq<char>) -> bool {
    q.len() <= p.len() && p.subrange(p.len() - q.len(), p.len() as int) == q
}

/// Whether `q` occurs somewhere in `p`.
pub open spec fn contains_seq(p: Seq<char>, q: Seq<char>) -> bool {
    exists|i: int| 0 <= i && i + q.len() <= p.len() && #[trigger] p.subrange(i, i + q.len()) == q
}

/// Whether `q` occurs in `p` at position `i`.
pub open spec fn occurs_at(p: Seq<char>, q: Seq<char>, i: int) -> bool {
    0 <= i && i + q.len() <= p.len() && p.subrange(i, i + q.len()) == q
}

/// Whether `q` occurs in `v` at position `i`.
pub fn matches_at(v: &Vec<char>, q: &Vec<char>, i: usize) -> (r: bool)
    ensures
        r == occurs_at(v@, q@, i as int),
{
    if i > v.len() || q.len() > v.len() - i {
        return false;
    }
    let mut j: usize = 0;
    while j < q.len()
        invariant
            i + q.len() <= v.len(),
            0 <= j <= q.len(),
            forall|k: int| 0 <= k < j ==> v@[i + k] == q@[k],
        decreases q.len() - j,
    {
        if v[i + j] != q[j] {
            assert(v@.subrange(i as int, i + q.len())[j as int] != q@[j as int]);
            return false;
        }
        j = j + 1;
    }
    assert(v@.subrange(i as int, i + q.len()) =~= q@);
    true
}

/// Whether `p` begins with `q`.
pub fn starts_with(p: &str, q: &str) -> (r: bool)
    ensures
        r == has_prefix(p@, q@),
{
    matches_at(&chars_of(p), &chars_of(q), 0)
}

/// Whether `p` ends with `q`.
pub fn ends_with(p: &str, q: &str) -> (r: bool)
    ensures
        r == has_suffix(p@, q@),
{
    let v = chars_of(p);
    let w = chars_of(q);
    if w.len() > v.len() {
        return false;
    }
    matches_at(&v, &w, v.len() - w.len())
}

/// Whether `q` occurs somewhere in `p`.
pub fn contains(p: &str, q: &str) -> (r: bool)
    ensures
        r == contains_seq(p@, q@),
{
    let v = chars_of(p);
    let w = chars_of(q);
    if w.len() > v.len() {
        assert forall|i: int| 0 <= i && i + w@.len() <= v@.len() implies #[trigger] v@.subrange(i, i + w@.len()) != w@ by {}
        return false;
    }
    let last = v.len() - w.len();
    let mut i: usize = 0;
    while i < last
        invariant
            i <= last,
            last == v.len() - w.len(),
            v@ == p@,
            w@ == q@,
            w.len() <= v.len(),
            forall|k: int| 0 <= k < i ==> !occurs_at(v@, w@, k),
        decreases last - i,
    {
        if matches_at(&v, &w, i) {
            assert(occurs_at(v@, w@, i as int));
            return true;
        }
        i = i + 1;
    }
    if matches_at(&v, &w, last) {
        assert(occurs_at(v@, w@, last as int));
        return true;
    }
    assert forall|k: int| 0 <= k && k + w@.len() <= v@.len() implies #[trigger] v@.subrange(k, k + w@.len()) != w@ by {
        assert(!occurs_at(v@, w@, k));
    }
    false
}

/// The characters of `v` from `from` up to `to`, as a string.
pub fn slice_string(v: &Vec<char>, from: usize, to: usize) -> (r: String)
    requires
        from <= to <= v.len(),
    ensures
        r@ == v@.subrange(from as int, to as int),
{
    let mut out: Vec<char> = Vec::new();
    let mut i: usize = from;
    while i < to
        invariant
            from <= i <= to <= v.len(),
            out@ == v@.subrange(from as int, i as int),
        decreases to - i,
    {
        out.push(v[i]);
        assert(v@.subrange(from as int, i + 1) == v@.subrange(from as int, i as int).push(v@[i as int]));
        i = i + 1;
    }
    string_of(&out)
}

/// `a` followed by `b`.
pub fn concat(a: &str, b: &str) -> (r: String)
    ensures
        r@ == a@ + b@,
{
    let mut v = chars_of(a);
    let w = chars_of(b);
    let mut i: usize = 0;
    while i < w.len()
        invariant
            0 <= i <= w.len(),
            w@ == b@,
            v@ == a@ + w@.subrange(0, i as int),
        decreases w.len() - i,
    {
        v.push(w[i]);
        assert(w@.subrange(0, i + 1) == w@.subrange(0, i as int).push(w@[i as int]));
        i = i + 1;
    }
    assert(w@.subrange(0, w.len() as int) == w@);
    string_of(&v)
}

} // verus!
