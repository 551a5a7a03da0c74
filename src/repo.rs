//! Repositories and the enumeration of their items.
use vstd::prelude::*;
use crate::config::{RepoConfig, tilde_expansion_of};
use crate::import::{fetch_step_for, import_resolved_from, resolve_import, FetchStep, Import};
use crate::paths::{file_name, file_name_of, join, join_path, parent, parent_path, path_starts_with, starts_with_path};
use crate::strategy::Strategy;
use crate::text::{chars_of, slice_string, str_eq};
use crate::vars::VarMap;
use crate::order::{lemma_sort_unique, sort_unique, sorted_unique, strictly_sorted, unique_paths};

verus! {

/// One logical unit to reconcile: a file, or a directory taken whole.
#[derive(Debug)]
pub struct RepoItem {
    pub source: String,
    pub target: String,
    /// Repository-relative, `/`-separated, unique within one pass.
    pub relative_path: String,
    pub is_template: bool,
    pub strategy: Strategy,
}

pub ghost struct ItemView {
    pub source: Seq<char>,
    pub target: Seq<char>,
    pub relative_path: Seq<char>,
    pub is_template: bool,
    pub strategy: Strategy,
}

impl View for RepoItem {
    type V = ItemView;

    open spec fn view(&self) -> ItemView {
        ItemView {
            source: self.source@,
            target: self.target@,
            relative_path: self.relative_path@,
            is_template: self.is_template,
            strategy: self.strategy,
        }
    }
}

/// One entry met while walking a source tree, below its root.
#[derive(Debug)]
pub struct WalkEntry {
    pub relative_path: String,
    pub is_dir: bool,
}

pub open spec fn entries_view(es: Seq<WalkEntry>) -> Seq<(Seq<char>, bool)> {
    es.map_values(|e: WalkEntry| (e.relative_path@, e.is_dir))
}

pub open spec fn imported_view(v: Seq<Option<Vec<WalkEntry>>>) -> Seq<Option<Seq<(Seq<char>, bool)>>> {
    v.map_values(
        |o: Option<Vec<WalkEntry>>|
            match o {
                Some(es) => Some(entries_view(es@)),
                None => None,
            },
    )
}

pub open spec fn strings_view(v: Seq<String>) -> Seq<Seq<char>> {
    v.map_values(|s: String| s@)
}

fn contains_string(v: &Vec<String>, s: &str) -> (r: bool)
    ensures
        r == strings_view(v@).contains(s@),
{
    let mut i: usize = 0;
    while i < v.len()
        invariant
            0 <= i <= v@.len(),
            forall|j: int| 0 <= j < i ==> #[trigger] strings_view(v@)[j] != s@,
        decreases v.len() - i,
    {
        if str_eq(v[i].as_str(), s) {
            assert(strings_view(v@)[i as int] == s@);
            return true;
        }
        i = i + 1;
    }
    false
}

pub open spec fn items_view(items: Seq<RepoItem>) -> Seq<ItemView> {
    items.map_values(|i: RepoItem| i@)
}

/// The index of the last `.` in `p`, or -1.
pub open spec fn last_dot(p: Seq<char>) -> int
    decreases p.len(),
{
    if p.len() == 0 {
        -1
    } else if p.last() == '.' {
        p.len() - 1
    } else {
        last_dot(p.drop_last())
    }
}

/// A file name without its extension; a name whose only dot leads it has none.
pub open spec fn stem_of(name: Seq<char>) -> Seq<char> {
    if last_dot(name) <= 0 {
        name
    } else {
        name.subrange(0, last_dot(name))
    }
}

/// Whether the file name of `p` carries the `tmpl` extension.
pub open spec fn is_template_path(p: Seq<char>) -> bool {
    match file_name_of(p) {
        Some(n) => last_dot(n) > 0 && n.subrange(last_dot(n) + 1, n.len() as int) == "tmpl"@,
        None => false,
    }
}

/// `rel` below `base`, with the extension of a template's file name removed.
pub open spec fn target_for(base: Seq<char>, rel: Seq<char>, is_template: bool) -> Seq<char> {
    let t = join_path(base, rel);
    if is_template {
        match file_name_of(t) {
            Some(n) => join_path(
                match parent_path(t) {
                    Some(p) => p,
                    None => Seq::empty(),
                },
                stem_of(n),
            ),
            None => t,
        }
    } else {
        t
    }
}

proof fn lemma_last_dot(p: Seq<char>)
    ensures
        -1 <= last_dot(p) < p.len(),
    decreases p.len(),
{
    if p.len() > 0 && p.last() != '.' {
        lemma_last_dot(p.drop_last());
    }
}

fn find_last_dot(v: &Vec<char>) -> (r: Option<usize>)
    ensures
        r matches Some(k) ==> k as int == last_dot(v@),
        r is None ==> last_dot(v@) == -1,
{
    let mut i: usize = v.len();
    assert(v@.subrange(0, i as int) =~= v@);
    while i > 0
        invariant
            0 <= i <= v.len(),
            last_dot(v@) == last_dot(v@.subrange(0, i as int)),
        decreases i,
    {
        assert(v@.subrange(0, i as int).drop_last() == v@.subrange(0, i - 1));
        if v[i - 1] == '.' {
            return Some(i - 1);
        }
        i = i - 1;
    }
    None
}

fn stem(name: &str) -> (r: String)
    ensures
        r@ == stem_of(name@),
{
    let v = chars_of(name);
    proof {
        lemma_last_dot(v@);
    }
    match find_last_dot(&v) {
        Some(k) => {
            if k == 0 {
                slice_string(&v, 0, v.len())
            } else {
                slice_string(&v, 0, k)
            }
        },
        None => slice_string(&v, 0, v.len()),
    }
}

/// Whether `p` names a template.
pub fn is_template_file(p: &str) -> (r: bool)
    ensures
        r == is_template_path(p@),
{
    match file_name(p) {
        Some(n) => {
            let v = chars_of(n.as_str());
            proof {
                lemma_last_dot(v@);
            }
            match find_last_dot(&v) {
                Some(k) => {
                    if k == 0 {
                        false
                    } else {
                        assert(k < v.len());
                        let ext = slice_string(&v, k + 1, v.len());
                        str_eq(ext.as_str(), "tmpl")
                    }
                },
                None => false,
            }
        },
        None => false,
    }
}

/// Where the item at `relative` goes below `base` (see `target_for`).
pub fn compute_target(base: &str, relative: &str, is_template: bool) -> (r: String)
    ensures
        r@ == target_for(base@, relative@, is_template),
{
    let t = join(base, relative);
    if is_template {
        match file_name(t.as_str()) {
            Some(n) => {
                let dir = match parent(t.as_str()) {
                    Some(p) => p,
                    None => String::new(),
                };
                let s = stem(n.as_str());
                join(dir.as_str(), s.as_str())
            },
            None => t,
        }
    } else {
        t
    }
}

/// Whether a directory already taken whole lies above `rel`.
pub open spec fn has_unit_ancestor(units: Seq<Seq<char>>, rel: Seq<char>) -> bool {
    exists|i: int|
        0 <= i < units.len() && units[i].len() > 0 && units[i] != rel && #[trigger] path_starts_with(
            rel,
            units[i],
        )
}

/// The item for the entry at `rel` of the tree rooted at `root`.
pub open spec fn item_for(cfg: RepoConfig, target_root: Seq<char>, root: Seq<char>, rel: Seq<char>) -> ItemView {
    let source = join_path(root, rel);
    let is_template = is_template_path(source);
    ItemView {
        source,
        target: target_for(target_root, rel, is_template),
        relative_path: rel,
        is_template,
        strategy: cfg.spec_strategy_for_path(rel),
    }
}

/// The items, and the directories taken whole, after the first `n` entries.
pub open spec fn collect_upto(
    cfg: RepoConfig,
    target_root: Seq<char>,
    root: Seq<char>,
    es: Seq<(Seq<char>, bool)>,
    n: int,
) -> (Seq<ItemView>, Seq<Seq<char>>)
    decreases n,
{
    if n <= 0 {
        (Seq::empty(), Seq::empty())
    } else {
        let (items, units) = collect_upto(cfg, target_root, root, es, n - 1);
        let (rel, is_dir) = es[n - 1];
        let item = item_for(cfg, target_root, root, rel);
        if cfg.spec_is_ignored(rel) || has_unit_ancestor(units, rel) {
            (items, units)
        } else if is_dir {
            if cfg.spec_strategy_for_path(rel).spec_is_directory_unit() {
                (items.push(item), units.push(rel))
            } else {
                (items, units)
            }
        } else {
            (items.push(item), units)
        }
    }
}

/// The items of a tree whose walk met `es`, in walk order: every entry not
/// ignored and not below a directory taken whole; a directory only when its
/// strategy takes it whole.
pub open spec fn collect_spec(cfg: RepoConfig, target_root: Seq<char>, root: Seq<char>, es: Seq<(Seq<char>, bool)>) -> Seq<ItemView> {
    collect_upto(cfg, target_root, root, es, es.len() as int).0
}

/// The merge of the first `n` of an import's `items` into `state`, a list
/// of items with the relative paths already seen.
pub open spec fn merge_upto(
    imp: Import,
    target_root: Seq<char>,
    items: Seq<ItemView>,
    state: (Seq<ItemView>, Seq<Seq<char>>),
    n: int,
) -> (Seq<ItemView>, Seq<Seq<char>>)
    decreases n,
{
    if n <= 0 {
        state
    } else {
        let (out, seen) = merge_upto(imp, target_root, items, state, n - 1);
        let it = items[n - 1];
        let rp = imp.spec_remap_path(it.relative_path);
        if !imp.spec_includes_path(it.relative_path) || seen.contains(rp) {
            (out, seen)
        } else {
            (
                out.push(
                    ItemView {
                        target: target_for(target_root, rp, it.is_template),
                        relative_path: rp,
                        ..it
                    },
                ),
                seen.push(rp),
            )
        }
    }
}

/// Whether `a` is a leading part of `b`.
pub open spec fn is_prefix(a: Seq<ItemView>, b: Seq<ItemView>) -> bool {
    a.len() <= b.len() && b.subrange(0, a.len() as int) == a
}

/// Whether a merge state lists the paths of its items, each once.
pub open spec fn state_consistent(state: (Seq<ItemView>, Seq<Seq<char>>)) -> bool {
    &&& state.1 == state.0.map_values(|i: ItemView| i.relative_path)
    &&& unique_paths(state.0)
}

proof fn lemma_prefix_trans(a: Seq<ItemView>, b: Seq<ItemView>, c: Seq<ItemView>)
    requires
        is_prefix(a, b),
        is_prefix(b, c),
    ensures
        is_prefix(a, c),
{
    assert(c.subrange(0, a.len() as int) =~= c.subrange(0, b.len() as int).subrange(0, a.len() as int));
}

proof fn lemma_merge(
    imp: Import,
    target_root: Seq<char>,
    items: Seq<ItemView>,
    state: (Seq<ItemView>, Seq<Seq<char>>),
    n: int,
)
    requires
        state_consistent(state),
    ensures
        state_consistent(merge_upto(imp, target_root, items, state, n)),
        is_prefix(state.0, merge_upto(imp, target_root, items, state, n).0),
    decreases n,
{
    assert(state.0.subrange(0, state.0.len() as int) =~= state.0);
    if n > 0 {
        lemma_merge(imp, target_root, items, state, n - 1);
        let (out, seen) = merge_upto(imp, target_root, items, state, n - 1);
        let it = items[n - 1];
        let rp = imp.spec_remap_path(it.relative_path);
        if imp.spec_includes_path(it.relative_path) && !seen.contains(rp) {
            let x = ItemView { target: target_for(target_root, rp, it.is_template), relative_path: rp, ..it };
            let out2 = out.push(x);
            assert(seen.push(rp) =~= out2.map_values(|i: ItemView| i.relative_path));
            assert forall|i: int, j: int| 0 <= i < j < out2.len() implies #[trigger] out2[i].relative_path != #[trigger] out2[j].relative_path by {
                if j == out.len() {
                    assert(seen[i] == out[i].relative_path);
                } else {
                    assert(out2[i] == out[i] && out2[j] == out[j]);
                }
            }
            assert(out2.subrange(0, state.0.len() as int) =~= out.subrange(0, state.0.len() as int));
        }
    }
}

/// A repository: a source tree, its configuration and resolved imports.
#[derive(Debug)]
pub struct Repo {
    pub name: String,
    pub path: String,
    /// The target root, with `~` expanded.
    pub target: String,
    pub config: RepoConfig,
    pub imports: Vec<Import>,
}

/// Why a repository could not be set up.
#[derive(Debug, Clone, Copy, PartialEq, Eq, Structural)]
pub enum RepoError {
    /// The repository path has no final component to name it by.
    NoName,
}

impl Repo {
    pub open spec fn spec_collect(&self, root: Seq<char>, es: Seq<(Seq<char>, bool)>) -> Seq<ItemView> {
        collect_spec(self.config, self.target@, root, es)
    }

    /// The native tree's items in lexical order of relative path, the first
    /// of each path kept.
    pub open spec fn native_items(&self, native: Seq<(Seq<char>, bool)>) -> Seq<ItemView> {
        sort_unique(self.spec_collect(self.path@, native))
    }

    /// The items after the native tree and the first `k` imports.
    pub open spec fn items_upto(
        &self,
        native: Seq<(Seq<char>, bool)>,
        imported: Seq<Option<Seq<(Seq<char>, bool)>>>,
        k: int,
    ) -> (Seq<ItemView>, Seq<Seq<char>>)
        decreases k,
    {
        if k <= 0 {
            let n = self.native_items(native);
            (n, n.map_values(|i: ItemView| i.relative_path))
        } else {
            let st = self.items_upto(native, imported, k - 1);
            match imported[k - 1] {
                None => st,
                Some(es) => {
                    let imp = self.imports@[k - 1];
                    let its = self.spec_collect(imp.local_path@, es);
                    merge_upto(imp, self.target@, its, st, its.len() as int)
                },
            }
        }
    }

    /// Sets a repository up from its path and configuration: named by the
    /// path's last component, targeting the configured directory with `~`
    /// expanded, with each declared import resolved.
    pub fn from_config(path: &str, config: RepoConfig) -> (r: Result<Repo, RepoError>)
        ensures
            file_name_of(path@) is None ==> r matches Err(RepoError::NoName),
            file_name_of(path@) is Some ==> r is Ok,
            r matches Ok(repo) ==> {
                &&& file_name_of(path@) == Some(repo.name@)
                &&& repo.path@ == path@
                &&& tilde_expansion_of(config.target@, repo.target@)
                &&& repo.config == config
                &&& repo.imports@.len() == config.imports@.len()
                &&& forall|i: int|
                    0 <= i < repo.imports@.len() ==> #[trigger] import_resolved_from(
                        config.imports@[i],
                        path@,
                        repo.imports@[i],
                    )
            },
    {
        let name = match file_name(path) {
            Some(n) => n,
            None => {
                return Err(RepoError::NoName);
            },
        };
        let target = config.expanded_target();
        let mut imports: Vec<Import> = Vec::new();
        let mut i: usize = 0;
        while i < config.imports.len()
            invariant
                0 <= i <= config.imports@.len(),
                imports@.len() == i,
                forall|j: int|
                    0 <= j < i ==> #[trigger] import_resolved_from(config.imports@[j], path@, imports@[j]),
            decreases config.imports.len() - i,
        {
            imports.push(resolve_import(&config.imports[i], path));
            i = i + 1;
        }
        Ok(Repo { name, path: crate::text::owned(path), target, config, imports })
    }

    pub fn vars(&self) -> (r: &VarMap)
        ensures
            r@ == self.config.vars@,
    {
        &self.config.vars
    }

    /// The fetch step of each import, given whether its checkout directory
    /// is present.
    pub fn fetch_imports(&self, present: &Vec<bool>) -> (r: Vec<FetchStep>)
        requires
            present@.len() == self.imports@.len(),
        ensures
            r@.len() == self.imports@.len(),
            forall|i: int|
                0 <= i < r@.len() ==> fetch_step_for(self.imports@[i], self.path@, present@[i], #[trigger] r@[i]),
    {
        let mut out: Vec<FetchStep> = Vec::new();
        let mut i: usize = 0;
        while i < self.imports.len()
            invariant
                0 <= i <= self.imports@.len(),
                present@.len() == self.imports@.len(),
                out@.len() == i,
                forall|j: int|
                    0 <= j < i ==> fetch_step_for(self.imports@[j], self.path@, present@[j], #[trigger] out@[j]),
            decreases self.imports.len() - i,
        {
            out.push(self.imports[i].ensure_available(self.path.as_str(), present[i]));
            i = i + 1;
        }
        out
    }

    /// Every item of the pass: the native tree's items in lexical order of
    /// relative path, then those of each import in declaration order. An import's item is kept
    /// only when an include pattern keeps its relative path; its path is
    /// then remapped and its target recomputed, and it is dropped when an
    /// earlier item already has the remapped path. `imported` holds, for
    /// each import, the entries of its walk, or `None` when its files are
    /// not there.
    pub fn items(&self, native: &Vec<WalkEntry>, imported: &Vec<Option<Vec<WalkEntry>>>) -> (r: Vec<RepoItem>)
        requires
            imported@.len() == self.imports@.len(),
        ensures
            items_view(r@) == self.items_upto(
                entries_view(native@),
                imported_view(imported@),
                imported@.len() as int,
            ).0,
            unique_paths(items_view(r@)),
            strictly_sorted(self.native_items(entries_view(native@))),
            is_prefix(self.native_items(entries_view(native@)), items_view(r@)),
    {
        let ghost nv = entries_view(native@);
        let ghost iv = imported_view(imported@);
        proof {
            self.lemma_items_upto(nv, iv, imported@.len() as int);
            lemma_sort_unique(self.spec_collect(self.path@, nv));
        }
        let walked = self.collect_items_from(self.path.as_str(), native);
        let mut items = sorted_unique(&walked);
        let mut seen: Vec<String> = Vec::new();
        let mut i: usize = 0;
        while i < items.len()
            invariant
                0 <= i <= items@.len(),
                seen@.len() == i,
                forall|j: int| 0 <= j < i ==> #[trigger] seen@[j]@ == items@[j].relative_path@,
            decreases items.len() - i,
        {
            seen.push(items[i].relative_path.clone());
            i = i + 1;
        }
        assert(strings_view(seen@) =~= items_view(items@).map_values(|it: ItemView| it.relative_path));
        let mut k: usize = 0;
        while k < self.imports.len()
            invariant
                0 <= k <= self.imports@.len(),
                imported@.len() == self.imports@.len(),
                nv == entries_view(native@),
                iv == imported_view(imported@),
                (items_view(items@), strings_view(seen@)) == self.items_upto(nv, iv, k as int),
            decreases self.imports.len() - k,
        {
            let imp = &self.imports[k];
            match &imported[k] {
                None => {},
                Some(es) => {
                    let its = self.collect_items_from(imp.local_path.as_str(), es);
                    let ghost st = self.items_upto(nv, iv, k as int);
                    let ghost itv = items_view(its@);
                    let mut j: usize = 0;
                    while j < its.len()
                        invariant
                            0 <= j <= its@.len(),
                            itv == items_view(its@),
                            (items_view(items@), strings_view(seen@)) == merge_upto(*imp, self.target@, itv, st, j as int),
                        decreases its.len() - j,
                    {
                        let it = &its[j];
                        assert(itv[j as int] == it@);
                        if imp.includes_path(it.relative_path.as_str()) {
                            let rp = imp.remap_path(it.relative_path.as_str());
                            if !contains_string(&seen, rp.as_str()) {
                                let ghost before = items@;
                                let ghost seen_before = seen@;
                                let target = compute_target(self.target.as_str(), rp.as_str(), it.is_template);
                                let moved = RepoItem {
                                    source: it.source.clone(),
                                    target,
                                    relative_path: rp.clone(),
                                    is_template: it.is_template,
                                    strategy: it.strategy,
                                };
                                items.push(moved);
                                seen.push(rp);
                                assert(items_view(items@) =~= items_view(before).push(moved@));
                                assert(strings_view(seen@) =~= strings_view(seen_before).push(moved.relative_path@));
                            }
                        }
                        j = j + 1;
                    }
                },
            }
            k = k + 1;
        }
        items
    }

    proof fn lemma_items_upto(
        &self,
        native: Seq<(Seq<char>, bool)>,
        imported: Seq<Option<Seq<(Seq<char>, bool)>>>,
        k: int,
    )
        ensures
            state_consistent(self.items_upto(native, imported, k)),
            is_prefix(self.native_items(native), self.items_upto(native, imported, k).0),
        decreases k,
    {
        let n = self.native_items(native);
        assert(n.subrange(0, n.len() as int) =~= n);
        if k <= 0 {
            lemma_sort_unique(self.spec_collect(self.path@, native));
        } else {
            self.lemma_items_upto(native, imported, k - 1);
            match imported[k - 1] {
                None => {},
                Some(es) => {
                    let imp = self.imports@[k - 1];
                    let its = self.spec_collect(imp.local_path@, es);
                    let st = self.items_upto(native, imported, k - 1);
                    lemma_merge(imp, self.target@, its, st, its.len() as int);
                    lemma_prefix_trans(n, st.0, merge_upto(imp, self.target@, its, st, its.len() as int).0);
                },
            }
        }
    }

    fn under_unit(units: &Vec<String>, rel: &str) -> (r: bool)
        ensures
            r == has_unit_ancestor(units@.map_values(|s: String| s@), rel@),
    {
        let ghost uv = units@.map_values(|s: String| s@);
        let mut i: usize = 0;
        while i < units.len()
            invariant
                0 <= i <= units@.len(),
                uv == units@.map_values(|s: String| s@),
                forall|j: int|
                    0 <= j < i ==> !(uv[j].len() > 0 && uv[j] != rel@ && #[trigger] path_starts_with(rel@, uv[j])),
            decreases units.len() - i,
        {
            let u = units[i].as_str();
            assert(uv[i as int] == u@);
            if u.unicode_len() > 0 && !str_eq(u, rel) && starts_with_path(rel, u) {
                return true;
            }
            i = i + 1;
        }
        false
    }

    /// The items of the tree at `root` whose walk met `entries`, in walk
    /// order (see `collect_spec`).
    pub fn collect_items_from(&self, root: &str, entries: &Vec<WalkEntry>) -> (r: Vec<RepoItem>)
        ensures
            items_view(r@) == self.spec_collect(root@, entries_view(entries@)),
    {
        let ghost es = entries_view(entries@);
        let mut items: Vec<RepoItem> = Vec::new();
        let mut units: Vec<String> = Vec::new();
        let mut i: usize = 0;
        while i < entries.len()
            invariant
                0 <= i <= entries@.len(),
                es == entries_view(entries@),
                (items_view(items@), units@.map_values(|s: String| s@)) == collect_upto(
                    self.config,
                    self.target@,
                    root@,
                    es,
                    i as int,
                ),
            decreases entries.len() - i,
        {
            let e = &entries[i];
            let rel = e.relative_path.as_str();
            assert(es[i as int] == (rel@, e.is_dir));
            let ghost before = items@;
            let ghost units_before = units@;
            if self.config.is_ignored(rel) || Repo::under_unit(&units, rel) {
            } else {
                let source = join(root, rel);
                let is_template = is_template_file(source.as_str());
                let target = compute_target(self.target.as_str(), rel, is_template);
                let strategy = self.config.strategy_for_path(rel);
                let item = RepoItem {
                    source,
                    target,
                    relative_path: e.relative_path.clone(),
                    is_template,
                    strategy,
                };
                assert(item@ == item_for(self.config, self.target@, root@, rel@));
                if e.is_dir {
                    if strategy.is_directory_unit() {
                        units.push(e.relative_path.clone());
                        items.push(item);
                        assert(units@.map_values(|s: String| s@) =~= units_before.map_values(|s: String| s@).push(rel@));
                        assert(items_view(items@) =~= items_view(before).push(item_for(self.config, self.target@, root@, rel@)));
                    }
                } else {
                    items.push(item);
                    assert(items_view(items@) =~= items_view(before).push(item_for(self.config, self.target@, root@, rel@)));
                }
            }
            i = i + 1;
        }
        items
    }
}

} // verus!
