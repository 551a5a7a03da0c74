//! Global and per-repository settings, as plain values.
use vstd::prelude::*;
use crate::strategy::Strategy;
use crate::text::{owned, str_eq};
use crate::paths::{config_dir, expand_tilde, home_dir, join, join_path, names_home, path_starts_with, starts_with_path};
use crate::text::has_suffix;
use crate::vars::VarMap;

verus! {

/// What glob::Pattern makes of `pattern` against `path`: `None` when the
/// pattern does not parse, else whether it matches.
pub uninterp spec fn glob_outcome(pattern: Seq<char>, path: Seq<char>) -> Option<bool>;

/// Relies on glob::Pattern::new and glob::Pattern::matches: the pattern is
/// parsed, then matched against `path`.
#[verifier::external_body]
fn glob_pattern_matches(pattern: &str, path: &str) -> (r: Option<bool>)
    ensures
        r == glob_outcome(pattern@, path@),
{
    match glob::Pattern::new(pattern) {
        Ok(p) => Some(p.matches(path)),
        Err(_) => None,
    }
}

/// What glob::Pattern makes of `pattern` against `path` (see `glob_outcome`).
pub fn glob_outcome_of(pattern: &str, path: &str) -> (r: Option<bool>)
    ensures
        r == glob_outcome(pattern@, path@),
{
    glob_pattern_matches(pattern, path)
}

/// A pattern matches a path as a glob, or, when it is no valid glob, when
/// the two are equal.
pub open spec fn glob_match_spec(pattern: Seq<char>, path: Seq<char>) -> bool {
    match glob_outcome(pattern, path) {
        Some(b) => b,
        None => pattern == path,
    }
}

pub fn glob_match(pattern: &str, path: &str) -> (r: bool)
    ensures
        r == glob_match_spec(pattern@, path@),
{
    match glob_pattern_matches(pattern, path) {
        Some(b) => b,
        None => str_eq(pattern, path),
    }
}

/// The paths ignored in every repository.
pub open spec fn default_ignore_patterns() -> Seq<Seq<char>> {
    seq![
        "homie.toml"@,
        ".git"@,
        ".git/**"@,
        ".homie"@,
        ".homie/**"@,
        ".DS_Store"@,
        "**/.DS_Store"@,
        "README.md"@,
        "README"@,
        "LICENSE"@,
        "LICENSE.md"@,
        ".gitignore"@,
    ]
}

fn default_ignores() -> (r: Vec<&'static str>)
    ensures
        r@.map_values(|s: &'static str| s@) == default_ignore_patterns(),
{
    let r = vec![
        "homie.toml",
        ".git",
        ".git/**",
        ".homie",
        ".homie/**",
        ".DS_Store",
        "**/.DS_Store",
        "README.md",
        "README",
        "LICENSE",
        "LICENSE.md",
        ".gitignore",
    ];
    assert(r@.map_values(|s: &'static str| s@) =~= default_ignore_patterns());
    r
}

pub open spec fn spec_default_backup_suffix() -> Seq<char> {
    ".backup.%Y%m%d%H%M%S"@
}

pub fn default_backup_suffix() -> (r: String)
    ensures
        r@ == spec_default_backup_suffix(),
{
    owned(".backup.%Y%m%d%H%M%S")
}

/// The include patterns of an import that names none: everything.
pub fn default_import_paths() -> (r: Vec<String>)
    ensures
        r@.len() == 1,
        r@[0]@ == "*"@,
{
    vec![owned("*")]
}

/// Settings shared by all repositories.
#[derive(Debug)]
pub struct Settings {
    /// A strftime-style suffix appended to the names of backups.
    pub backup_suffix: String,
    /// Directories whose symlinks may be replaced freely.
    pub replaceable_paths: Vec<String>,
}

impl Default for Settings {
    fn default() -> (r: Settings)
        ensures
            r.backup_suffix@ == spec_default_backup_suffix(),
            r.replaceable_paths@.len() == 0,
    {
        Settings { backup_suffix: default_backup_suffix(), replaceable_paths: Vec::new() }
    }
}

/// Environment variables handed to templates as `env.NAME`.
#[derive(Debug)]
pub struct EnvConfig {
    pub pass_through: Vec<String>,
}

impl Default for EnvConfig {
    fn default() -> (r: EnvConfig)
        ensures
            r.pass_through@.len() == 0,
    {
        EnvConfig { pass_through: Vec::new() }
    }
}

/// The optional global configuration.
#[derive(Debug)]
pub struct GlobalConfig {
    pub settings: Settings,
    pub vars: VarMap,
    pub env: EnvConfig,
}

impl Default for GlobalConfig {
    fn default() -> (r: GlobalConfig)
        ensures
            r.settings.backup_suffix@ == spec_default_backup_suffix(),
            r.settings.replaceable_paths@.len() == 0,
            r.vars@.len() == 0,
            r.env.pass_through@.len() == 0,
    {
        GlobalConfig { settings: Settings::default(), vars: VarMap::new(), env: EnvConfig::default() }
    }
}

/// What a path becomes after tilde expansion, for some home directory.
pub open spec fn tilde_expansion_of(s: Seq<char>, r: Seq<char>) -> bool {
    &&& !names_home(s) ==> r == s
    &&& names_home(s) ==> r == s || has_suffix(r, s.drop_first())
}

/// Failures to locate the user's directories.
#[derive(Debug, Clone, Copy, PartialEq, Eq, Structural)]
pub enum ConfigError {
    NoConfigDir,
    NoHomeDir,
}

impl GlobalConfig {
    /// `<config dir>/homie/config.toml`.
    pub fn config_path() -> (r: Result<String, ConfigError>)
        ensures
            r matches Err(e) ==> e == ConfigError::NoConfigDir,
            r matches Ok(p) ==> exists|dir: Seq<char>| p@ == join_path(join_path(dir, "homie"@), "config.toml"@),
    {
        match config_dir() {
            Some(dir) => {
                let d = join(&dir, "homie");
                let r = join(&d, "config.toml");
                assert(r@ == join_path(join_path(dir@, "homie"@), "config.toml"@));
                Ok(r)
            },
            None => Err(ConfigError::NoConfigDir),
        }
    }

    /// The replaceable paths, each with a leading `~` expanded.
    pub fn expanded_replaceable_paths(&self) -> (r: Vec<String>)
        ensures
            r@.len() == self.settings.replaceable_paths@.len(),
            forall|i: int|
                0 <= i < r@.len() ==> tilde_expansion_of(
                    #[trigger] self.settings.replaceable_paths@[i]@,
                    r@[i]@,
                ),
    {
        let mut out: Vec<String> = Vec::new();
        let mut i: usize = 0;
        while i < self.settings.replaceable_paths.len()
            invariant
                0 <= i <= self.settings.replaceable_paths@.len(),
                out@.len() == i,
                forall|j: int|
                    0 <= j < i ==> tilde_expansion_of(
                        #[trigger] self.settings.replaceable_paths@[j]@,
                        out@[j]@,
                    ),
            decreases self.settings.replaceable_paths.len() - i,
        {
            out.push(expand_tilde(self.settings.replaceable_paths[i].as_str()));
            i = i + 1;
        }
        out
    }
}

/// `~/.homie/repos`, where repositories live.
pub fn repos_dir() -> (r: Result<String, ConfigError>)
    ensures
        r matches Err(e) ==> e == ConfigError::NoHomeDir,
        r matches Ok(p) ==> exists|home: Seq<char>| p@ == join_path(home, ".homie/repos"@),
{
    match home_dir() {
        Some(home) => {
            let r = join(&home, ".homie/repos");
            assert(r@ == join_path(home@, ".homie/repos"@));
            Ok(r)
        },
        None => Err(ConfigError::NoHomeDir),
    }
}

#[derive(Debug)]
pub struct RepoDefaults {
    pub strategy: Strategy,
}

impl Default for RepoDefaults {
    fn default() -> (r: RepoDefaults)
        ensures
            r.strategy == Strategy::File,
    {
        RepoDefaults { strategy: Strategy::File }
    }
}

#[derive(Debug)]
pub struct IgnoreConfig {
    pub paths: Vec<String>,
}

impl Default for IgnoreConfig {
    fn default() -> (r: IgnoreConfig)
        ensures
            r.paths@.len() == 0,
    {
        IgnoreConfig { paths: Vec::new() }
    }
}

/// A rewrite of a relative path prefix.
#[derive(Debug)]
pub struct PathRemap {
    pub from: String,
    pub to: String,
}

impl Clone for PathRemap {
    fn clone(&self) -> (r: PathRemap)
        ensures
            r.from@ == self.from@,
            r.to@ == self.to@,
    {
        PathRemap { from: self.from.clone(), to: self.to.clone() }
    }
}

/// An import as declared in a repository's configuration.
#[derive(Debug)]
pub struct ImportConfig {
    pub name: Option<String>,
    pub source: String,
    pub git_ref: Option<String>,
    pub paths: Vec<String>,
    pub remap: Vec<PathRemap>,
}

/// The configuration of one repository.
#[derive(Debug)]
pub struct RepoConfig {
    /// The directory the links go to, such as `~`.
    pub target: String,
    pub vars: VarMap,
    pub defaults: RepoDefaults,
    /// Per-path strategy overrides, in declaration order.
    pub strategies: Vec<(String, Strategy)>,
    pub ignore: IgnoreConfig,
    pub imports: Vec<ImportConfig>,
}

/// Whether an override pattern selects `path`: it equals the path or
/// matches it as a glob. A directory's contents are selected by a glob
/// such as `.config/nvim/**`.
pub open spec fn override_applies(pattern: Seq<char>, path: Seq<char>) -> bool {
    pattern == path || glob_match_spec(pattern, path)
}

/// Whether an ignore pattern selects `path`: it matches as a glob, or it
/// names a directory that the path lies in.
pub open spec fn ignore_applies(pattern: Seq<char>, path: Seq<char>) -> bool {
    glob_match_spec(pattern, path) || (pattern.len() > 0 && path_starts_with(path, pattern))
}

fn ignore_pattern_applies(pattern: &str, path: &str) -> (r: bool)
    ensures
        r == ignore_applies(pattern@, path@),
{
    glob_match(pattern, path) || (pattern.unicode_len() > 0 && starts_with_path(path, pattern))
}

/// The strategy of the first override in `s` that applies to `path`, else `default`.
pub open spec fn strategy_for(s: Seq<(Seq<char>, Strategy)>, default: Strategy, path: Seq<char>) -> Strategy
    decreases s.len(),
{
    if s.len() == 0 {
        default
    } else if override_applies(s[0].0, path) {
        s[0].1
    } else {
        strategy_for(s.drop_first(), default, path)
    }
}

/// Whether `path` is ignored by a default pattern or by one in `user`.
pub open spec fn ignored_by(user: Seq<Seq<char>>, path: Seq<char>) -> bool {
    exists|p: Seq<char>|
        (default_ignore_patterns().contains(p) || user.contains(p)) && #[trigger] ignore_applies(p, path)
}

impl RepoConfig {
    pub open spec fn strategies_view(&self) -> Seq<(Seq<char>, Strategy)> {
        self.strategies@.map_values(|e: (String, Strategy)| (e.0@, e.1))
    }

    pub open spec fn ignore_view(&self) -> Seq<Seq<char>> {
        self.ignore.paths@.map_values(|s: String| s@)
    }

    pub open spec fn spec_strategy_for_path(&self, path: Seq<char>) -> Strategy {
        strategy_for(self.strategies_view(), self.defaults.strategy, path)
    }

    pub open spec fn spec_is_ignored(&self, path: Seq<char>) -> bool {
        ignored_by(self.ignore_view(), path)
    }

    /// The target directory with a leading `~` expanded.
    pub fn expanded_target(&self) -> (r: String)
        ensures
            tilde_expansion_of(self.target@, r@),
    {
        expand_tilde(self.target.as_str())
    }

    /// The strategy for `path`: the first override, in declaration order,
    /// that equals the path or matches it as a glob, else the repository's
    /// default.
    pub fn strategy_for_path(&self, path: &str) -> (r: Strategy)
        ensures
            r == self.spec_strategy_for_path(path@),
    {
        let mut i: usize = 0;
        assert(self.strategies_view().subrange(0, self.strategies@.len() as int) =~= self.strategies_view());
        while i < self.strategies.len()
            invariant
                0 <= i <= self.strategies@.len(),
                strategy_for(self.strategies_view(), self.defaults.strategy, path@) == strategy_for(
                    self.strategies_view().subrange(i as int, self.strategies@.len() as int),
                    self.defaults.strategy,
                    path@,
                ),
            decreases self.strategies.len() - i,
        {
            let ghost rest = self.strategies_view().subrange(i as int, self.strategies@.len() as int);
            assert(rest.drop_first() =~= self.strategies_view().subrange(i + 1, self.strategies@.len() as int));
            let pattern = self.strategies[i].0.as_str();
            if str_eq(pattern, path) || glob_match(pattern, path) {
                return self.strategies[i].1;
            }
            i = i + 1;
        }
        self.defaults.strategy
    }

    /// Whether `path` matches a default ignore pattern or a user-declared
    /// one, as a glob or as a directory it lies in.
    pub fn is_ignored(&self, path: &str) -> (r: bool)
        ensures
            r == self.spec_is_ignored(path@),
    {
        let defaults = default_ignores();
        let mut i: usize = 0;
        while i < defaults.len()
            invariant
                0 <= i <= defaults@.len(),
                defaults@.map_values(|s: &'static str| s@) == default_ignore_patterns(),
                forall|j: int| 0 <= j < i ==> !ignore_applies(#[trigger] default_ignore_patterns()[j], path@),
            decreases defaults.len() - i,
        {
            if ignore_pattern_applies(defaults[i], path) {
                assert(default_ignore_patterns()[i as int] == defaults@[i as int]@);
                assert(default_ignore_patterns().contains(defaults@[i as int]@));
                return true;
            }
            i = i + 1;
        }
        let mut k: usize = 0;
        while k < self.ignore.paths.len()
            invariant
                0 <= k <= self.ignore.paths@.len(),
                forall|j: int| 0 <= j < default_ignore_patterns().len() ==> !ignore_applies(#[trigger] default_ignore_patterns()[j], path@),
                forall|j: int| 0 <= j < k ==> !ignore_applies(#[trigger] self.ignore_view()[j], path@),
            decreases self.ignore.paths.len() - k,
        {
            if ignore_pattern_applies(self.ignore.paths[k].as_str(), path) {
                assert(self.ignore_view()[k as int] == self.ignore.paths@[k as int]@);
                assert(self.ignore_view().contains(self.ignore.paths@[k as int]@));
                return true;
            }
            k = k + 1;
        }
        assert forall|p: Seq<char>| (default_ignore_patterns().contains(p) || self.ignore_view().contains(p)) implies !#[trigger] ignore_applies(p, path@) by {
            if default_ignore_patterns().contains(p) {
                let j = choose|j: int| 0 <= j < default_ignore_patterns().len() && default_ignore_patterns()[j] == p;
                assert(!ignore_applies(default_ignore_patterns()[j], path@));
            } else {
                let j = choose|j: int| 0 <= j < self.ignore_view().len() && self.ignore_view()[j] == p;
                assert(!ignore_applies(self.ignore_view()[j], path@));
            }
        }
        false
    }
}

} // verus!
