//! The record of how each relative path was last materialised.
use vstd::prelude::*;
use crate::text::str_eq;

verus! {

/// The kind of artifact produced for one relative path.
#[derive(Debug, Clone, Copy, PartialEq, Eq, Structural)]
pub enum ManifestEntry {
    Symlink,
    Copy,
    Rendered,
}

impl ManifestEntry {
    pub open spec fn spec_tag(self) -> Seq<char> {
        match self {
            ManifestEntry::Symlink => "symlink"@,
            ManifestEntry::Copy => "copy"@,
            ManifestEntry::Rendered => "rendered"@,
        }
    }

    /// The lower-case tag under which the entry is stored.
    pub fn tag(&self) -> (r: &'static str)
        ensures
            r@ == self.spec_tag(),
    {
        match self {
            ManifestEntry::Symlink => "symlink",
            ManifestEntry::Copy => "copy",
            ManifestEntry::Rendered => "rendered",
        }
    }

    /// Parses a stored tag.
    pub fn from_tag(s: &str) -> (r: Option<ManifestEntry>)
        ensures
            r matches Some(e) ==> e.spec_tag() == s@,
            r is None ==> forall|e: ManifestEntry| e.spec_tag() != s@,
    {
        if str_eq(ManifestEntry::Symlink.tag(), s) {
            Some(ManifestEntry::Symlink)
        } else if str_eq(ManifestEntry::Copy.tag(), s) {
            Some(ManifestEntry::Copy)
        } else if str_eq(ManifestEntry::Rendered.tag(), s) {
            Some(ManifestEntry::Rendered)
        } else {
            proof {
                assert forall|e: ManifestEntry| e.spec_tag() != s@ by {
                    match e {
                        ManifestEntry::Symlink => {},
                        ManifestEntry::Copy => {},
                        ManifestEntry::Rendered => {},
                    }
                }
            }
            None
        }
    }
}

/// An ordered mapping from relative path to entry kind, each path at most once.
#[derive(Debug)]
pub struct Manifest {
    entries: Vec<(String, ManifestEntry)>,
}

/// The entry recorded for `path` in `s`, the first one if several were.
pub open spec fn entry_for(s: Seq<(Seq<char>, ManifestEntry)>, path: Seq<char>) -> Option<ManifestEntry>
    decreases s.len(),
{
    if s.len() == 0 {
        None
    } else if s[0].0 == path {
        Some(s[0].1)
    } else {
        entry_for(s.drop_first(), path)
    }
}

/// Whether no path occurs twice in `s`.
pub open spec fn paths_unique(s: Seq<(Seq<char>, ManifestEntry)>) -> bool {
    forall|i: int, j: int| 0 <= i < j < s.len() ==> #[trigger] s[i].0 != #[trigger] s[j].0
}

proof fn lemma_entry_for_index(s: Seq<(Seq<char>, ManifestEntry)>, path: Seq<char>)
    ensures
        entry_for(s, path) is None <==> forall|i: int| 0 <= i < s.len() ==> #[trigger] s[i].0 != path,
        paths_unique(s) ==> forall|i: int| 0 <= i < s.len() && #[trigger] s[i].0 == path ==> entry_for(s, path) == Some(s[i].1),
    decreases s.len(),
{
    if s.len() > 0 {
        lemma_entry_for_index(s.drop_first(), path);
        assert forall|i: int| 1 <= i < s.len() implies #[trigger] s[i] == s.drop_first()[i - 1] by {}
        if entry_for(s.drop_first(), path) is None {
            assert forall|i: int| 0 <= i < s.len() && #[trigger] s[i].0 == path implies i == 0 by {
                if i > 0 {
                    assert(s.drop_first()[i - 1].0 == path);
                }
            }
        }
    }
}

impl View for Manifest {
    type V = Seq<(Seq<char>, ManifestEntry)>;

    closed spec fn view(&self) -> Seq<(Seq<char>, ManifestEntry)> {
        self.entries@.map_values(|e: (String, ManifestEntry)| (e.0@, e.1))
    }
}

impl Manifest {
    pub closed spec fn wf(&self) -> bool {
        paths_unique(self@)
    }

    pub open spec fn spec_get(&self, path: Seq<char>) -> Option<ManifestEntry> {
        entry_for(self@, path)
    }

    pub fn new() -> (r: Manifest)
        ensures
            r.wf(),
            r@ == Seq::<(Seq<char>, ManifestEntry)>::empty(),
    {
        let r = Manifest { entries: Vec::new() };
        assert(r@ =~= Seq::<(Seq<char>, ManifestEntry)>::empty());
        r
    }

    pub fn len(&self) -> (r: usize)
        ensures
            r == self@.len(),
    {
        self.entries.len()
    }

    pub fn is_empty(&self) -> (r: bool)
        ensures
            r == (self@.len() == 0),
    {
        self.entries.len() == 0
    }

    /// The entry at position `i`, in insertion order.
    pub fn entry_at(&self, i: usize) -> (r: (&String, ManifestEntry))
        requires
            i < self@.len(),
        ensures
            r.0@ == self@[i as int].0,
            r.1 == self@[i as int].1,
    {
        let e = &self.entries[i];
        (&e.0, e.1)
    }

    fn position(&self, path: &str) -> (r: Option<usize>)
        ensures
            r matches Some(i) ==> i < self@.len() && self@[i as int].0 == path@,
            r is None ==> forall|i: int| 0 <= i < self@.len() ==> #[trigger] self@[i].0 != path@,
    {
        let mut i: usize = 0;
        while i < self.entries.len()
            invariant
                0 <= i <= self@.len(),
                self@.len() == self.entries@.len(),
                forall|k: int| 0 <= k < i ==> #[trigger] self@[k].0 != path@,
            decreases self.entries.len() - i,
        {
            if str_eq(self.entries[i].0.as_str(), path) {
                return Some(i);
            }
            i = i + 1;
        }
        None
    }

    /// The entry recorded for `path`.
    pub fn get(&self, path: &str) -> (r: Option<ManifestEntry>)
        requires
            self.wf(),
        ensures
            r == self.spec_get(path@),
    {
        proof {
            lemma_entry_for_index(self@, path@);
        }
        match self.position(path) {
            Some(i) => Some(self.entries[i].1),
            None => None,
        }
    }

    /// Records `entry` for `path`, replacing an earlier record in place or
    /// appending a new one.
    pub fn insert(&mut self, path: String, entry: ManifestEntry)
        requires
            old(self).wf(),
        ensures
            final(self).wf(),
            final(self).spec_get(path@) == Some(entry),
            forall|p: Seq<char>| p != path@ ==> final(self).spec_get(p) == old(self).spec_get(p),
    {
        proof {
            lemma_entry_for_index(self@, path@);
        }
        let ghost old_view = self@;
        match self.position(path.as_str()) {
            Some(i) => {
                let ghost pv = path@;
                self.entries.set(i, (path, entry));
                assert(self@ =~= old_view.update(i as int, (pv, entry)));
                proof {
                    assert forall|k: int| 0 <= k < self@.len() implies #[trigger] self@[k].0 == old_view[k].0 by {}
                    assert(paths_unique(self@));
                    assert(self@[i as int].0 == pv);
                    lemma_entry_for_index(self@, pv);
                    assert forall|p: Seq<char>| p != pv implies entry_for(self@, p) == entry_for(old_view, p) by {
                        lemma_entry_for_index(self@, p);
                        lemma_entry_for_index(old_view, p);
                        if entry_for(old_view, p) is None {
                            assert forall|k: int| 0 <= k < self@.len() implies #[trigger] self@[k].0 != p by {
                                if k != i {
                                    assert(old_view[k].0 != p);
                                }
                            }
                        } else {
                            let k = choose|k: int| 0 <= k < old_view.len() && #[trigger] old_view[k].0 == p;
                            assert(self@[k] == old_view[k]);
                        }
                    }
                }
            },
            None => {
                let ghost pv = path@;
                self.entries.push((path, entry));
                assert(self@ =~= old_view.push((pv, entry)));
                proof {
                    let n = old_view.len() as int;
                    assert(self@[n].0 == pv);
                    assert forall|a: int, b: int| 0 <= a < b < self@.len() implies #[trigger] self@[a].0 != #[trigger] self@[b].0 by {
                        if b < n {
                            assert(old_view[a] == self@[a] && old_view[b] == self@[b]);
                        } else {
                            assert(old_view[a] == self@[a]);
                        }
                    }
                    lemma_entry_for_index(self@, pv);
                    assert forall|p: Seq<char>| p != pv implies entry_for(self@, p) == entry_for(old_view, p) by {
                        lemma_entry_for_index(self@, p);
                        lemma_entry_for_index(old_view, p);
                        if entry_for(old_view, p) is None {
                            assert forall|k: int| 0 <= k < self@.len() implies #[trigger] self@[k].0 != p by {
                                if k < n {
                                    assert(old_view[k] == self@[k]);
                                }
                            }
                        } else {
                            let k = choose|k: int| 0 <= k < old_view.len() && #[trigger] old_view[k].0 == p;
                            assert(self@[k] == old_view[k]);
                        }
                    }
                }
            },
        }
    }
}

} // verus!
