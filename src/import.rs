//! Imports: other source trees whose files join a repository's items.
use vstd::prelude::*;
use crate::config::{glob_outcome, ImportConfig, PathRemap, tilde_expansion_of};
use crate::paths::{expand_tilde, file_name, file_name_of, join, join_path, last_sep, strip_path_prefix, strip_prefix};
use crate::text::{chars_of, concat, contains, contains_seq, ends_with, has_prefix, has_suffix, owned, slice_string, starts_with, str_eq};

verus! {

/// Where an import's files come from.
#[derive(Debug)]
pub enum ImportSource {
    Local(String),
    Git { url: String, git_ref: Option<String> },
}

/// A resolved import.
#[derive(Debug)]
pub struct Import {
    pub name: String,
    pub source: ImportSource,
    /// Where the import's files are found on this machine.
    pub local_path: String,
    /// Include patterns over the import's relative paths.
    pub paths: Vec<String>,
    pub remap: Vec<PathRemap>,
}

/// Whether include pattern `pattern` keeps relative path `rel`.
pub open spec fn include_applies(pattern: Seq<char>, rel: Seq<char>) -> bool {
    pattern == "*"@ || rel == pattern || has_prefix(rel, pattern + seq!['/']) || glob_outcome(pattern, rel)
        == Some(true)
}

/// The result of the first remap rule in `rules` whose `from` is a leading
/// part of `rel`, else `rel` itself.
pub open spec fn remap_by(rules: Seq<(Seq<char>, Seq<char>)>, rel: Seq<char>) -> Seq<char>
    decreases rules.len(),
{
    if rules.len() == 0 {
        rel
    } else {
        match strip_path_prefix(rel, rules[0].0) {
            Some(rest) => join_path(rules[0].1, rest),
            None => remap_by(rules.drop_first(), rel),
        }
    }
}

pub open spec fn git_imports_dir(repo_path: Seq<char>) -> Seq<char> {
    join_path(repo_path, ".homie/imports"@)
}

/// What must happen for an import's files to be present.
#[derive(Debug)]
pub enum FetchStep {
    /// The files are there already.
    Ready,
    /// A local import whose source path does not exist.
    MissingSource { path: String },
    /// Clone the remote into `dest`, at `git_ref` when one is pinned.
    Clone { url: String, dest: String, git_ref: Option<String> },
    /// Bring the clone in `dir` up to date, at `git_ref` when one is pinned.
    Pull { dir: String, git_ref: Option<String> },
}

impl Import {
    pub open spec fn paths_view(&self) -> Seq<Seq<char>> {
        self.paths@.map_values(|s: String| s@)
    }

    pub open spec fn remap_view(&self) -> Seq<(Seq<char>, Seq<char>)> {
        self.remap@.map_values(|r: PathRemap| (r.from@, r.to@))
    }

    pub open spec fn spec_includes_path(&self, rel: Seq<char>) -> bool {
        exists|i: int| 0 <= i < self.paths@.len() && include_applies(#[trigger] self.paths_view()[i], rel)
    }

    pub open spec fn spec_remap_path(&self, rel: Seq<char>) -> Seq<char> {
        remap_by(self.remap_view(), rel)
    }

    pub fn source_path(&self) -> (r: &String)
        ensures
            r@ == self.local_path@,
    {
        &self.local_path
    }

    /// Whether one of the include patterns keeps `rel`: `*`, the path
    /// itself, a leading directory of it, or a glob that matches it.
    pub fn includes_path(&self, rel: &str) -> (r: bool)
        ensures
            r == self.spec_includes_path(rel@),
    {
        let mut i: usize = 0;
        while i < self.paths.len()
            invariant
                0 <= i <= self.paths@.len(),
                forall|j: int| 0 <= j < i ==> !include_applies(#[trigger] self.paths_view()[j], rel@),
            decreases self.paths.len() - i,
        {
            let pattern = self.paths[i].as_str();
            let dir = concat(pattern, "/");
            proof {
                reveal_strlit("/");
                assert("/"@ =~= seq!['/']);
            }
            let hit = str_eq(pattern, "*") || str_eq(rel, pattern) || starts_with(rel, dir.as_str())
                || glob_says_match(pattern, rel);
            assert(self.paths_view()[i as int] == pattern@);
            if hit {
                return true;
            }
            i = i + 1;
        }
        false
    }

    /// `rel` rewritten by the first remap rule that applies to it.
    pub fn remap_path(&self, rel: &str) -> (r: String)
        ensures
            r@ == self.spec_remap_path(rel@),
    {
        let mut i: usize = 0;
        assert(self.remap_view().subrange(0, self.remap@.len() as int) =~= self.remap_view());
        while i < self.remap.len()
            invariant
                0 <= i <= self.remap@.len(),
                self.remap_view().len() == self.remap@.len(),
                remap_by(self.remap_view(), rel@) == remap_by(
                    self.remap_view().subrange(i as int, self.remap@.len() as int),
                    rel@,
                ),
            decreases self.remap.len() - i,
        {
            let ghost rest = self.remap_view().subrange(i as int, self.remap@.len() as int);
            assert(rest.drop_first() =~= self.remap_view().subrange(i + 1, self.remap@.len() as int));
            let rule = &self.remap[i];
            match strip_prefix(rel, rule.from.as_str()) {
                Some(stripped) => {
                    return join(rule.to.as_str(), stripped.as_str());
                },
                None => {},
            }
            i = i + 1;
        }
        owned(rel)
    }

    /// The directory whose presence decides what fetching does: the source
    /// path of a local import, the clone of a remote one.
    pub fn checkout_dir(&self, repo_path: &str) -> (r: String)
        ensures
            self.source matches ImportSource::Local(p) ==> r@ == p@,
            self.source is Git ==> r@ == join_path(git_imports_dir(repo_path@), self.name@),
    {
        match &self.source {
            ImportSource::Local(p) => p.clone(),
            ImportSource::Git { .. } => {
                let d = join(repo_path, ".homie/imports");
                join(&d, self.name.as_str())
            },
        }
    }

    /// What fetching this import takes, given whether its checkout
    /// directory is present: a missing local source is reported, an absent
    /// clone is cloned and a present one pulled.
    pub fn ensure_available(&self, repo_path: &str, present: bool) -> (r: FetchStep)
        ensures
            fetch_step_for(*self, repo_path@, present, r),
    {
        let dir = self.checkout_dir(repo_path);
        match &self.source {
            ImportSource::Local(p) => {
                if present {
                    FetchStep::Ready
                } else {
                    FetchStep::MissingSource { path: p.clone() }
                }
            },
            ImportSource::Git { url, git_ref } => {
                let g = clone_opt(git_ref);
                if present {
                    FetchStep::Pull { dir, git_ref: g }
                } else {
                    FetchStep::Clone { url: url.clone(), dest: dir, git_ref: g }
                }
            },
        }
    }
}

/// The step that fetching `imp` takes (see `Import::ensure_available`).
pub open spec fn fetch_step_for(imp: Import, repo_path: Seq<char>, present: bool, r: FetchStep) -> bool {
    match (imp.source, r) {
        (ImportSource::Local(_), FetchStep::Ready) => present,
        (ImportSource::Local(p), FetchStep::MissingSource { path }) => !present && path@ == p@,
        (ImportSource::Git { url, git_ref }, FetchStep::Clone { url: u, dest, git_ref: g }) => {
            &&& !present
            &&& u@ == url@
            &&& dest@ == join_path(git_imports_dir(repo_path), imp.name@)
            &&& opt_view(g) == opt_view(git_ref)
        },
        (ImportSource::Git { git_ref, .. }, FetchStep::Pull { dir, git_ref: g }) => {
            &&& present
            &&& dir@ == join_path(git_imports_dir(repo_path), imp.name@)
            &&& opt_view(g) == opt_view(git_ref)
        },
        _ => false,
    }
}

pub open spec fn opt_view(o: Option<String>) -> Option<Seq<char>> {
    match o {
        Some(s) => Some(s@),
        None => None,
    }
}

pub fn clone_opt(o: &Option<String>) -> (r: Option<String>)
    ensures
        opt_view(r) == opt_view(*o),
{
    match o {
        Some(s) => Some(s.clone()),
        None => None,
    }
}

fn glob_says_match(pattern: &str, rel: &str) -> (r: bool)
    ensures
        r == (glob_outcome(pattern@, rel@) == Some(true)),
{
    crate::config::glob_match(pattern, rel) && !glob_invalid(pattern, rel)
}

fn glob_invalid(pattern: &str, rel: &str) -> (r: bool)
    ensures
        r == (glob_outcome(pattern@, rel@) is None),
{
    crate::config::glob_outcome_of(pattern, rel).is_none()
}

/// Whether `s` names a git remote rather than a local path.
pub open spec fn spec_is_git_url(s: Seq<char>) -> bool {
    has_prefix(s, "git@"@) || has_prefix(s, "https://github.com"@) || has_prefix(s, "https://gitlab.com"@)
        || has_prefix(s, "https://bitbucket.org"@) || has_suffix(s, ".git"@) || (contains_seq(s, "://"@)
        && contains_seq(s, "git"@))
}

pub fn is_git_url(source: &str) -> (r: bool)
    ensures
        r == spec_is_git_url(source@),
{
    starts_with(source, "git@") || starts_with(source, "https://github.com") || starts_with(
        source,
        "https://gitlab.com",
    ) || starts_with(source, "https://bitbucket.org") || ends_with(source, ".git") || (contains(
        source,
        "://",
    ) && contains(source, "git"))
}

/// `s` without any trailing `c`.
pub open spec fn trim_end_char(s: Seq<char>, c: char) -> Seq<char>
    decreases s.len(),
{
    if s.len() > 0 && s.last() == c {
        trim_end_char(s.drop_last(), c)
    } else {
        s
    }
}

/// `s` without any trailing repetitions of the non-empty `q`.
pub open spec fn trim_end_seq(s: Seq<char>, q: Seq<char>) -> Seq<char>
    decreases s.len(),
{
    if q.len() > 0 && has_suffix(s, q) {
        trim_end_seq(s.subrange(0, s.len() - q.len()), q)
    } else {
        s
    }
}

/// The last `/`-separated part of a URL, after trailing slashes and then
/// trailing `.git` are removed.
pub open spec fn url_tail(url: Seq<char>) -> Seq<char> {
    let t = trim_end_seq(trim_end_char(url, '/'), ".git"@);
    t.subrange(last_sep(t) + 1, t.len() as int)
}

fn trim_trailing(v: &Vec<char>, q: &Vec<char>) -> (r: usize)
    requires
        q.len() > 0,
    ensures
        r <= v.len(),
        v@.subrange(0, r as int) == trim_end_seq(v@, q@),
{
    let mut n: usize = v.len();
    assert(v@.subrange(0, n as int) =~= v@);
    while n >= q.len() && crate::text::matches_at(v, q, n - q.len())
        invariant
            n <= v.len(),
            q.len() > 0,
            trim_end_seq(v@, q@) == trim_end_seq(v@.subrange(0, n as int), q@),
        decreases n,
    {
        assert(has_suffix(v@.subrange(0, n as int), q@)) by {
            assert(v@.subrange(0, n as int).subrange(n - q.len(), n as int) =~= v@.subrange(n - q.len(), n as int));
        }
        assert(v@.subrange(0, n as int).subrange(0, n - q.len()) =~= v@.subrange(0, n - q.len()));
        n = n - q.len();
    }
    if n >= q.len() {
        assert(!has_suffix(v@.subrange(0, n as int), q@)) by {
            assert(v@.subrange(0, n as int).subrange(n - q.len(), n as int) =~= v@.subrange(n - q.len(), n as int));
        }
    }
    n
}

fn trim_trailing_char(v: &Vec<char>, c: char) -> (r: usize)
    ensures
        r <= v.len(),
        v@.subrange(0, r as int) == trim_end_char(v@, c),
{
    let mut n: usize = v.len();
    assert(v@.subrange(0, n as int) =~= v@);
    while n > 0 && v[n - 1] == c
        invariant
            n <= v.len(),
            trim_end_char(v@, c) == trim_end_char(v@.subrange(0, n as int), c),
        decreases n,
    {
        assert(v@.subrange(0, n as int).drop_last() =~= v@.subrange(0, n - 1));
        n = n - 1;
    }
    n
}

fn url_tail_exec(url: &str) -> (r: String)
    ensures
        r@ == url_tail(url@),
{
    let v = chars_of(url);
    let n1 = trim_trailing_char(&v, '/');
    let t1 = slice_string(&v, 0, n1);
    let w = chars_of(t1.as_str());
    let q = chars_of(".git");
    proof {
        reveal_strlit(".git");
    }
    let n2 = trim_trailing(&w, &q);
    let t2 = slice_string(&w, 0, n2);
    match file_name(t2.as_str()) {
        Some(n) => n,
        None => String::new(),
    }
}

/// A name for an import derived from its URL: its last path component,
/// without a trailing `.git`.
pub fn derive_name_from_url(url: &str) -> (r: String)
    ensures
        r@ == url_tail(url@),
{
    url_tail_exec(url)
}

/// Why no repository name could be taken from a URL.
#[derive(Debug, Clone, Copy, PartialEq, Eq, Structural)]
pub enum NameError {
    Empty,
}

/// The repository name a clone of `url` gets: as `derive_name_from_url`,
/// and an error where that is empty.
pub fn extract_repo_name(url: &str) -> (r: Result<String, NameError>)
    ensures
        match r {
            Ok(n) => url_tail(url@).len() > 0 && n@ == url_tail(url@),
            Err(e) => url_tail(url@).len() == 0 && e == NameError::Empty,
        },
{
    let n = url_tail_exec(url);
    if n.as_str().unicode_len() == 0 {
        Err(NameError::Empty)
    } else {
        Ok(n)
    }
}

pub open spec fn remaps_view(r: Seq<PathRemap>) -> Seq<(Seq<char>, Seq<char>)> {
    r.map_values(|p: PathRemap| (p.from@, p.to@))
}

fn clone_strings(v: &Vec<String>) -> (r: Vec<String>)
    ensures
        r@.map_values(|s: String| s@) == v@.map_values(|s: String| s@),
{
    let mut out: Vec<String> = Vec::new();
    let mut i: usize = 0;
    while i < v.len()
        invariant
            0 <= i <= v@.len(),
            out@.len() == i,
            forall|j: int| 0 <= j < i ==> #[trigger] out@[j]@ == v@[j]@,
        decreases v.len() - i,
    {
        out.push(v[i].clone());
        i = i + 1;
    }
    assert(out@.map_values(|s: String| s@) =~= v@.map_values(|s: String| s@));
    out
}

fn clone_remaps(v: &Vec<PathRemap>) -> (r: Vec<PathRemap>)
    ensures
        remaps_view(r@) == remaps_view(v@),
{
    let mut out: Vec<PathRemap> = Vec::new();
    let mut i: usize = 0;
    while i < v.len()
        invariant
            0 <= i <= v@.len(),
            out@.len() == i,
            forall|j: int| 0 <= j < i ==> #[trigger] out@[j].from@ == v@[j].from@ && out@[j].to@ == v@[j].to@,
        decreases v.len() - i,
    {
        out.push(v[i].clone());
        i = i + 1;
    }
    assert(remaps_view(out@) =~= remaps_view(v@));
    out
}

/// The name of a local import that declares none: the last component of
/// its path, else `import`.
pub open spec fn local_import_name(path: Seq<char>) -> Seq<char> {
    match file_name_of(path) {
        Some(n) => n,
        None => "import"@,
    }
}

/// The import that `config` declares, where a local source path reads
/// `expanded` once a leading `~` is expanded.
pub open spec fn resolved_import(config: ImportConfig, repo_path: Seq<char>, expanded: Seq<char>, r: Import) -> bool {
    &&& r.paths@.map_values(|s: String| s@) == config.paths@.map_values(|s: String| s@)
    &&& remaps_view(r.remap@) == remaps_view(config.remap@)
    &&& spec_is_git_url(config.source@) ==> {
        &&& r.name@ == (match config.name {
            Some(n) => n@,
            None => url_tail(config.source@),
        })
        &&& r.local_path@ == join_path(git_imports_dir(repo_path), r.name@)
        &&& r.source matches ImportSource::Git { url, git_ref } && url@ == config.source@ && opt_view(git_ref)
            == opt_view(config.git_ref)
    }
    &&& !spec_is_git_url(config.source@) ==> {
        &&& r.name@ == (match config.name {
            Some(n) => n@,
            None => local_import_name(expanded),
        })
        &&& r.local_path@ == expanded
        &&& r.source matches ImportSource::Local(p) && p@ == expanded
    }
}

/// Whether `r` is the import `config` declares, for some expansion of `~`
/// in its source.
pub open spec fn import_resolved_from(config: ImportConfig, repo_path: Seq<char>, r: Import) -> bool {
    exists|expanded: Seq<char>| tilde_expansion_of(config.source@, expanded) && resolved_import(config, repo_path, expanded, r)
}

/// Resolves a declared import, given its source with `~` expanded.
pub fn resolve_import_with(config: &ImportConfig, repo_path: &str, expanded: &str) -> (r: Import)
    ensures
        resolved_import(*config, repo_path@, expanded@, r),
{
    let paths = clone_strings(&config.paths);
    let remap = clone_remaps(&config.remap);
    if is_git_url(config.source.as_str()) {
        let name = match &config.name {
            Some(n) => n.clone(),
            None => derive_name_from_url(config.source.as_str()),
        };
        let d = join(repo_path, ".homie/imports");
        let local_path = join(&d, name.as_str());
        Import {
            name,
            source: ImportSource::Git { url: config.source.clone(), git_ref: clone_opt(&config.git_ref) },
            local_path,
            paths,
            remap,
        }
    } else {
        let name = match &config.name {
            Some(n) => n.clone(),
            None => match file_name(expanded) {
                Some(n) => n,
                None => owned("import"),
            },
        };
        Import { name, source: ImportSource::Local(owned(expanded)), local_path: owned(expanded), paths, remap }
    }
}

/// Resolves a declared import against the repository at `repo_path`.
pub fn resolve_import(config: &ImportConfig, repo_path: &str) -> (r: Import)
    ensures
        import_resolved_from(*config, repo_path@, r),
{
    let expanded = expand_tilde(config.source.as_str());
    let r = resolve_import_with(config, repo_path, expanded.as_str());
    assert(tilde_expansion_of(config.source@, expanded@) && resolved_import(*config, repo_path@, expanded@, r));
    r
}

/// The git argument lists that carry out a fetch step, in order: a shallow
/// clone (of the pinned ref only, when there is one); a fetch and checkout
/// of the pinned ref; or a fast-forward pull.
pub fn git_invocations(step: &FetchStep) -> (r: Vec<Vec<String>>)
    ensures
        (step is Ready || step is MissingSource) ==> r@.len() == 0,
        step matches FetchStep::Clone { url, dest, git_ref: None } ==> r@.len() == 1 && r@[0]@.map_values(
            |s: String| s@,
        ) == seq!["clone"@, "--depth"@, "1"@, url@, dest@],
        step matches FetchStep::Clone { url, dest, git_ref: Some(g) } ==> r@.len() == 1 && r@[0]@.map_values(
            |s: String| s@,
        ) == seq!["clone"@, "--depth"@, "1"@, "--branch"@, g@, url@, dest@],
        step matches FetchStep::Pull { git_ref: None, .. } ==> r@.len() == 1 && r@[0]@.map_values(
            |s: String| s@,
        ) == seq!["pull"@, "--ff-only"@],
        step matches FetchStep::Pull { git_ref: Some(g), .. } ==> r@.len() == 2 && r@[0]@.map_values(
            |s: String| s@,
        ) == seq!["fetch"@, "origin"@, g@] && r@[1]@.map_values(|s: String| s@) == seq!["checkout"@, g@],
{
    let mut out: Vec<Vec<String>> = Vec::new();
    match step {
        FetchStep::Clone { url, dest, git_ref } => {
            let mut args: Vec<String> = vec![owned("clone"), owned("--depth"), owned("1")];
            match git_ref {
                Some(g) => {
                    args.push(owned("--branch"));
                    args.push(g.clone());
                },
                None => {},
            }
            args.push(url.clone());
            args.push(dest.clone());
            assert(args@.map_values(|s: String| s@) =~= (match git_ref {
                Some(g) => seq!["clone"@, "--depth"@, "1"@, "--branch"@, g@, url@, dest@],
                None => seq!["clone"@, "--depth"@, "1"@, url@, dest@],
            }));
            out.push(args);
        },
        FetchStep::Pull { git_ref, .. } => {
            match git_ref {
                Some(g) => {
                    let a: Vec<String> = vec![owned("fetch"), owned("origin"), g.clone()];
                    let b: Vec<String> = vec![owned("checkout"), g.clone()];
                    assert(a@.map_values(|s: String| s@) =~= seq!["fetch"@, "origin"@, g@]);
                    assert(b@.map_values(|s: String| s@) =~= seq!["checkout"@, g@]);
                    out.push(a);
                    out.push(b);
                },
                None => {
                    let a: Vec<String> = vec![owned("pull"), owned("--ff-only")];
                    assert(a@.map_values(|s: String| s@) =~= seq!["pull"@, "--ff-only"@]);
                    out.push(a);
                },
            }
        },
        _ => {},
    }
    out
}

} // verus!
