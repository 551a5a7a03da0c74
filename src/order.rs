//! Lexical order of relative paths, and lists of items kept in that order.
use vstd::prelude::*;
use crate::repo::{items_view, ItemView, RepoItem};
use crate::text::{chars_of, str_eq};

verus! {

/// Whether `a` comes strictly before `b`, comparing characters by code
/// point and a proper prefix before what it begins.
pub open spec fn lex_lt(a: Seq<char>, b: Seq<char>) -> bool
    decreases a.len(),
{
    if a.len() == 0 {
        b.len() > 0
    } else if b.len() == 0 {
        false
    } else if a[0] != b[0] {
        (a[0] as int) < (b[0] as int)
    } else {
        lex_lt(a.drop_first(), b.drop_first())
    }
}

pub proof fn lemma_lex_irreflexive(a: Seq<char>)
    ensures
        !lex_lt(a, a),
    decreases a.len(),
{
    if a.len() > 0 {
        lemma_lex_irreflexive(a.drop_first());
    }
}

pub proof fn lemma_lex_total(a: Seq<char>, b: Seq<char>)
    ensures
        a != b ==> lex_lt(a, b) || lex_lt(b, a),
    decreases a.len(),
{
    if a.len() > 0 && b.len() > 0 && a[0] == b[0] {
        lemma_lex_total(a.drop_first(), b.drop_first());
        if a.drop_first() == b.drop_first() {
            assert(a =~= seq![a[0]] + a.drop_first());
            assert(b =~= seq![b[0]] + b.drop_first());
        }
    } else if a.len() == 0 && b.len() == 0 {
        assert(a =~= b);
    } else if a.len() > 0 && b.len() > 0 {
        assert((a[0] as int) != (b[0] as int));
    }
}

pub proof fn lemma_lex_transitive(a: Seq<char>, b: Seq<char>, c: Seq<char>)
    requires
        lex_lt(a, b),
        lex_lt(b, c),
    ensures
        lex_lt(a, c),
    decreases a.len(),
{
    if a.len() > 0 && b.len() > 0 && c.len() > 0 && a[0] == b[0] && b[0] == c[0] {
        lemma_lex_transitive(a.drop_first(), b.drop_first(), c.drop_first());
    }
}

/// Whether `a` comes strictly before `b`.
pub fn str_lt(a: &str, b: &str) -> (r: bool)
    ensures
        r == lex_lt(a@, b@),
{
    let x = chars_of(a);
    let y = chars_of(b);
    let mut i: usize = 0;
    assert(x@.subrange(0, x.len() as int) =~= x@);
    assert(y@.subrange(0, y.len() as int) =~= y@);
    while i < x.len() && i < y.len() && x[i] == y[i]
        invariant
            0 <= i <= x.len(),
            i <= y.len(),
            x@ == a@,
            y@ == b@,
            lex_lt(a@, b@) == lex_lt(x@.subrange(i as int, x.len() as int), y@.subrange(i as int, y.len() as int)),
        decreases x.len() - i,
    {
        assert(x@.subrange(i as int, x.len() as int).drop_first() =~= x@.subrange(i + 1, x.len() as int));
        assert(y@.subrange(i as int, y.len() as int).drop_first() =~= y@.subrange(i + 1, y.len() as int));
        i = i + 1;
    }
    if i == x.len() {
        i < y.len()
    } else if i == y.len() {
        false
    } else {
        x[i] < y[i]
    }
}

/// Whether the relative paths of `s` strictly increase.
pub open spec fn strictly_sorted(s: Seq<ItemView>) -> bool {
    forall|i: int, j: int| 0 <= i < j < s.len() ==> lex_lt(#[trigger] s[i].relative_path, #[trigger] s[j].relative_path)
}

/// Whether no two items of `s` share a relative path.
pub open spec fn unique_paths(s: Seq<ItemView>) -> bool {
    forall|i: int, j: int| 0 <= i < j < s.len() ==> #[trigger] s[i].relative_path != #[trigger] s[j].relative_path
}

/// The first position at or after `i` whose path does not come before `key`.
pub open spec fn first_not_below(s: Seq<ItemView>, key: Seq<char>, i: int) -> int
    decreases s.len() - i,
{
    if 0 <= i < s.len() && lex_lt(s[i].relative_path, key) {
        first_not_below(s, key, i + 1)
    } else {
        i
    }
}

/// `s` with `x` in its place by relative path, unless an item with that
/// path is there already.
pub open spec fn insert_unique(s: Seq<ItemView>, x: ItemView) -> Seq<ItemView> {
    let p = first_not_below(s, x.relative_path, 0);
    if p < s.len() && s[p].relative_path == x.relative_path {
        s
    } else {
        s.insert(p, x)
    }
}

/// The items of `s` in lexical order of relative path, the first of each
/// path kept.
pub open spec fn sort_unique(s: Seq<ItemView>) -> Seq<ItemView>
    decreases s.len(),
{
    if s.len() == 0 {
        s
    } else {
        insert_unique(sort_unique(s.drop_last()), s.last())
    }
}

proof fn lemma_first_not_below(s: Seq<ItemView>, key: Seq<char>, i: int)
    requires
        0 <= i <= s.len(),
    ensures
        i <= first_not_below(s, key, i) <= s.len(),
        forall|j: int| i <= j < first_not_below(s, key, i) ==> lex_lt(#[trigger] s[j].relative_path, key),
        first_not_below(s, key, i) < s.len() ==> !lex_lt(s[first_not_below(s, key, i)].relative_path, key),
    decreases s.len() - i,
{
    if i < s.len() && lex_lt(s[i].relative_path, key) {
        lemma_first_not_below(s, key, i + 1);
    }
}

pub proof fn lemma_insert_unique(s: Seq<ItemView>, x: ItemView)
    requires
        strictly_sorted(s),
    ensures
        strictly_sorted(insert_unique(s, x)),
{
    let key = x.relative_path;
    lemma_first_not_below(s, key, 0);
    let p = first_not_below(s, key, 0);
    if !(p < s.len() && s[p].relative_path == key) {
        let t = s.insert(p, x);
        if p < s.len() {
            lemma_lex_total(s[p].relative_path, key);
        }
        assert forall|i: int, j: int| 0 <= i < j < t.len() implies lex_lt(#[trigger] t[i].relative_path, #[trigger] t[j].relative_path) by {
            if j > p {
                assert(t[j] == s[j - 1]);
                // the key comes before every item from position p on
                if j - 1 > p {
                    lemma_lex_transitive(key, s[p].relative_path, s[j - 1].relative_path);
                }
                assert(lex_lt(key, t[j].relative_path));
                if i < p {
                    assert(t[i] == s[i]);
                    lemma_lex_transitive(t[i].relative_path, key, t[j].relative_path);
                } else if i > p {
                    assert(t[i] == s[i - 1]);
                }
            } else if j == p {
                assert(t[i] == s[i]);
            } else {
                assert(t[i] == s[i] && t[j] == s[j]);
            }
        }
    }
}

pub proof fn lemma_sort_unique(s: Seq<ItemView>)
    ensures
        strictly_sorted(sort_unique(s)),
        unique_paths(sort_unique(s)),
    decreases s.len(),
{
    if s.len() > 0 {
        lemma_sort_unique(s.drop_last());
        lemma_insert_unique(sort_unique(s.drop_last()), s.last());
    }
    let t = sort_unique(s);
    assert forall|i: int, j: int| 0 <= i < j < t.len() implies #[trigger] t[i].relative_path != #[trigger] t[j].relative_path by {
        lemma_lex_irreflexive(t[i].relative_path);
    }
}

fn copy_item(it: &RepoItem) -> (r: RepoItem)
    ensures
        r@ == it@,
{
    RepoItem {
        source: it.source.clone(),
        target: it.target.clone(),
        relative_path: it.relative_path.clone(),
        is_template: it.is_template,
        strategy: it.strategy,
    }
}

/// `items` in lexical order of relative path, the first of each path kept
/// (see `sort_unique`).
pub fn sorted_unique(items: &Vec<RepoItem>) -> (r: Vec<RepoItem>)
    ensures
        items_view(r@) == sort_unique(items_view(items@)),
        strictly_sorted(items_view(r@)),
        unique_paths(items_view(r@)),
{
    let ghost all = items_view(items@);
    let mut out: Vec<RepoItem> = Vec::new();
    let mut i: usize = 0;
    assert(all.subrange(0, 0) =~= Seq::<ItemView>::empty());
    while i < items.len()
        invariant
            0 <= i <= items@.len(),
            all == items_view(items@),
            items_view(out@) == sort_unique(all.subrange(0, i as int)),
        decreases items.len() - i,
    {
        let x = &items[i];
        let ghost before = items_view(out@);
        assert(all.subrange(0, i + 1).drop_last() =~= all.subrange(0, i as int));
        assert(all.subrange(0, i + 1).last() == x@);
        let mut p: usize = 0;
        while p < out.len() && str_lt(out[p].relative_path.as_str(), x.relative_path.as_str())
            invariant
                0 <= p <= out@.len(),
                before == items_view(out@),
                first_not_below(before, x.relative_path@, 0) == first_not_below(before, x.relative_path@, p as int),
            decreases out.len() - p,
        {
            p = p + 1;
        }
        if p < out.len() && str_eq(out[p].relative_path.as_str(), x.relative_path.as_str()) {
        } else {
            out.insert(p, copy_item(x));
            assert(items_view(out@) =~= before.insert(p as int, x@));
        }
        i = i + 1;
    }
    assert(all.subrange(0, items@.len() as int) =~= all);
    proof {
        lemma_sort_unique(all);
    }
    out
}

} // verus!
