//! The reconciliation engine: classifying a target and planning the
//! filesystem operations that link or unlink an item.
use vstd::prelude::*;
use crate::config::{tilde_expansion_of, GlobalConfig};
use crate::manifest::ManifestEntry;
use crate::paths::{file_name, file_name_of, is_absolute, join, join_path, parent, parent_path, path_starts_with, starts_with_path};
use crate::repo::{ItemView, RepoItem};
use crate::text::{chars_of, concat, owned, str_eq};
use crate::template::{render_spec, TemplateEngine};
use crate::vars::VarMap;
use std::fmt::Write;

verus! {

/// What a path is, as seen without following a final symlink.
#[derive(Debug)]
pub enum PathKind {
    Absent,
    File,
    Dir,
    /// A symlink whose value is `link`; `dest_exists` tells whether the
    /// path it resolves to exists.
    Symlink { link: String, dest_exists: bool },
}

pub ghost enum KindView {
    Absent,
    File,
    Dir,
    Symlink { link: Seq<char>, dest_exists: bool },
}

impl View for PathKind {
    type V = KindView;

    open spec fn view(&self) -> KindView {
        match self {
            PathKind::Absent => KindView::Absent,
            PathKind::File => KindView::File,
            PathKind::Dir => KindView::Dir,
            PathKind::Symlink { link, dest_exists } => KindView::Symlink { link: link@, dest_exists: *dest_exists },
        }
    }
}

/// The state of a target path relative to a repository.
#[derive(Debug)]
pub enum TargetState {
    NotExists,
    SymlinkToRepo,
    SymlinkToReplaceable,
    SymlinkToExternal(String),
    BrokenSymlink,
    RegularFile,
    Directory,
}

pub ghost enum StateView {
    NotExists,
    SymlinkToRepo,
    SymlinkToReplaceable,
    SymlinkToExternal(Seq<char>),
    BrokenSymlink,
    RegularFile,
    Directory,
}

impl View for TargetState {
    type V = StateView;

    open spec fn view(&self) -> StateView {
        match self {
            TargetState::NotExists => StateView::NotExists,
            TargetState::SymlinkToRepo => StateView::SymlinkToRepo,
            TargetState::SymlinkToReplaceable => StateView::SymlinkToReplaceable,
            TargetState::SymlinkToExternal(p) => StateView::SymlinkToExternal(p@),
            TargetState::BrokenSymlink => StateView::BrokenSymlink,
            TargetState::RegularFile => StateView::RegularFile,
            TargetState::Directory => StateView::Directory,
        }
    }
}

/// Where the symlink at `path` with value `link` points: an absolute value
/// as it stands, a relative one against the symlink's directory.
pub open spec fn resolve_link_spec(path: Seq<char>, link: Seq<char>) -> Seq<char> {
    if is_absolute(link) {
        link
    } else {
        join_path(
            match parent_path(path) {
                Some(p) => p,
                None => Seq::empty(),
            },
            link,
        )
    }
}

/// Where the symlink at `path` with value `link` points.
pub fn resolve_link(path: &str, link: &str) -> (r: String)
    ensures
        r@ == resolve_link_spec(path@, link@),
{
    let v = chars_of(link);
    if v.len() > 0 && v[0] == '/' {
        return owned(link);
    }
    let dir = match parent(path) {
        Some(p) => p,
        None => String::new(),
    };
    join(dir.as_str(), link)
}

/// The state of `target`, a path of kind `kind`, relative to the repository
/// at `repo` and the replaceable roots `replaceable`. A symlink whose
/// destination is missing is broken before anything else is asked of it.
pub open spec fn classify_spec(target: Seq<char>, kind: KindView, repo: Seq<char>, replaceable: Seq<Seq<char>>) -> StateView {
    match kind {
        KindView::Absent => StateView::NotExists,
        KindView::File => StateView::RegularFile,
        KindView::Dir => StateView::Directory,
        KindView::Symlink { link, dest_exists } => {
            let resolved = resolve_link_spec(target, link);
            if !dest_exists {
                StateView::BrokenSymlink
            } else if path_starts_with(resolved, repo) {
                StateView::SymlinkToRepo
            } else if exists|i: int| 0 <= i < replaceable.len() && #[trigger] path_starts_with(resolved, replaceable[i]) {
                StateView::SymlinkToReplaceable
            } else {
                StateView::SymlinkToExternal(resolved)
            }
        },
    }
}

/// Whether `p` lies at or below one of `roots`.
fn under_any(p: &str, roots: &Vec<String>) -> (r: bool)
    ensures
        r == exists|i: int| 0 <= i < roots@.len() && #[trigger] path_starts_with(p@, strings_view(roots@)[i]),
{
    let ghost rv = strings_view(roots@);
    let mut i: usize = 0;
    while i < roots.len()
        invariant
            0 <= i <= roots@.len(),
            rv == strings_view(roots@),
            forall|j: int| 0 <= j < i ==> !#[trigger] path_starts_with(p@, rv[j]),
        decreases roots.len() - i,
    {
        assert(rv[i as int] == roots@[i as int]@);
        if starts_with_path(p, roots[i].as_str()) {
            assert(path_starts_with(p@, rv[i as int]));
            return true;
        }
        i = i + 1;
    }
    false
}

pub open spec fn strings_view(v: Seq<String>) -> Seq<Seq<char>> {
    v.map_values(|s: String| s@)
}

/// Classifies `target`, observed as `kind` (see `classify_spec`). The result
/// is a function of the arguments alone.
pub fn classify_target(target: &str, kind: &PathKind, repo_path: &str, replaceable: &Vec<String>) -> (r: TargetState)
    ensures
        r@ == classify_spec(target@, kind@, repo_path@, strings_view(replaceable@)),
{
    match kind {
        PathKind::Absent => TargetState::NotExists,
        PathKind::File => TargetState::RegularFile,
        PathKind::Dir => TargetState::Directory,
        PathKind::Symlink { link, dest_exists } => {
            let resolved = resolve_link(target, link.as_str());
            if !*dest_exists {
                return TargetState::BrokenSymlink;
            }
            if starts_with_path(resolved.as_str(), repo_path) {
                return TargetState::SymlinkToRepo;
            }
            if under_any(resolved.as_str(), replaceable) {
                return TargetState::SymlinkToReplaceable;
            }
            TargetState::SymlinkToExternal(resolved)
        },
    }
}

/// Pass-wide flags.
#[derive(Debug, Clone, Copy, Default)]
pub struct LinkOptions {
    pub dry_run: bool,
    pub force: bool,
    pub verbose: bool,
    pub no_fetch: bool,
}

/// The outcome for one item.
#[derive(Debug)]
pub enum LinkResult {
    Created { entry: ManifestEntry },
    AlreadyCorrect { entry: ManifestEntry },
    Skipped { reason: String },
    BackedUp { backup_path: String, entry: ManifestEntry },
    Unlinked,
}

impl LinkResult {
    pub open spec fn manifest_entry_spec(&self) -> Option<ManifestEntry> {
        match self@ {
            ResultView::Created(e) | ResultView::AlreadyCorrect(e) | ResultView::BackedUp(_, e) => Some(e),
            _ => None,
        }
    }

    /// The entry the manifest records for an item with this result, if any.
    pub fn manifest_entry(&self) -> (r: Option<ManifestEntry>)
        ensures
            r == self.manifest_entry_spec(),
    {
        match self {
            LinkResult::Created { entry } => Some(*entry),
            LinkResult::AlreadyCorrect { entry } => Some(*entry),
            LinkResult::BackedUp { entry, .. } => Some(*entry),
            LinkResult::Skipped { .. } => None,
            LinkResult::Unlinked => None,
        }
    }
}

impl crate::manifest::Manifest {
    /// Records the outcome of linking the item at `relative_path`: the entry
    /// its result carries, if any; a skipped item leaves the manifest as it
    /// was.
    pub fn record(&mut self, relative_path: String, result: &LinkResult)
        requires
            old(self).wf(),
        ensures
            final(self).wf(),
            result.manifest_entry_spec() is None ==> final(self)@ == old(self)@,
            result.manifest_entry_spec() matches Some(e) ==> final(self).spec_get(relative_path@) == Some(e),
            forall|p: Seq<char>| p != relative_path@ ==> final(self).spec_get(p) == old(self).spec_get(p),
    {
        match result.manifest_entry() {
            Some(entry) => self.insert(relative_path, entry),
            None => {},
        }
    }
}

pub ghost enum ResultView {
    Created(ManifestEntry),
    AlreadyCorrect(ManifestEntry),
    Skipped(Seq<char>),
    BackedUp(Seq<char>, ManifestEntry),
    Unlinked,
}

impl View for LinkResult {
    type V = ResultView;

    open spec fn view(&self) -> ResultView {
        match self {
            LinkResult::Created { entry } => ResultView::Created(*entry),
            LinkResult::AlreadyCorrect { entry } => ResultView::AlreadyCorrect(*entry),
            LinkResult::Skipped { reason } => ResultView::Skipped(reason@),
            LinkResult::BackedUp { backup_path, entry } => ResultView::BackedUp(backup_path@, *entry),
            LinkResult::Unlinked => ResultView::Unlinked,
        }
    }
}

/// One filesystem mutation.
#[derive(Debug)]
pub enum FsOp {
    /// Create a directory and its missing ancestors.
    CreateDirAll { path: String },
    RemoveFile { path: String },
    /// Remove a directory and everything below it.
    RemoveDirAll { path: String },
    Rename { from: String, to: String },
    /// Create a symlink at `target` to `source`, or, with `resolve_source`,
    /// to the path that the symlink `source` resolves to.
    Symlink { source: String, target: String, resolve_source: bool },
    WriteFile { path: String, contents: String },
    /// Copy a file's bytes and permission bits.
    CopyFile { from: String, to: String },
    /// Copy a directory tree, keeping each entry's permission bits.
    CopyDir { from: String, to: String },
}

pub ghost enum OpView {
    CreateDirAll(Seq<char>),
    RemoveFile(Seq<char>),
    RemoveDirAll(Seq<char>),
    Rename(Seq<char>, Seq<char>),
    Symlink(Seq<char>, Seq<char>, bool),
    WriteFile(Seq<char>, Seq<char>),
    CopyFile(Seq<char>, Seq<char>),
    CopyDir(Seq<char>, Seq<char>),
}

impl View for FsOp {
    type V = OpView;

    open spec fn view(&self) -> OpView {
        match self {
            FsOp::CreateDirAll { path } => OpView::CreateDirAll(path@),
            FsOp::RemoveFile { path } => OpView::RemoveFile(path@),
            FsOp::RemoveDirAll { path } => OpView::RemoveDirAll(path@),
            FsOp::Rename { from, to } => OpView::Rename(from@, to@),
            FsOp::Symlink { source, target, resolve_source } => OpView::Symlink(source@, target@, *resolve_source),
            FsOp::WriteFile { path, contents } => OpView::WriteFile(path@, contents@),
            FsOp::CopyFile { from, to } => OpView::CopyFile(from@, to@),
            FsOp::CopyDir { from, to } => OpView::CopyDir(from@, to@),
        }
    }
}

/// The decision for one item: its result, and the operations that carry it
/// out, in order.
#[derive(Debug)]
pub struct LinkPlan {
    pub result: LinkResult,
    pub ops: Vec<FsOp>,
}

pub open spec fn ops_view(ops: Seq<FsOp>) -> Seq<OpView> {
    ops.map_values(|o: FsOp| o@)
}

impl View for LinkPlan {
    type V = (ResultView, Seq<OpView>);

    open spec fn view(&self) -> (ResultView, Seq<OpView>) {
        (self.result@, ops_view(self.ops@))
    }
}

/// Why an item could not be planned.
#[derive(Debug)]
pub enum LinkError {
    /// The template could not be rendered.
    Render { message: String },
    /// A backup was due but the target has no file name.
    NoFileName,
    /// A backup was due but the backup suffix is no valid time format.
    BadBackupSuffix,
}

pub ghost enum ErrorView {
    Render,
    NoFileName,
    BadBackupSuffix,
}

impl View for LinkError {
    type V = ErrorView;

    open spec fn view(&self) -> ErrorView {
        match self {
            LinkError::Render { .. } => ErrorView::Render,
            LinkError::NoFileName => ErrorView::NoFileName,
            LinkError::BadBackupSuffix => ErrorView::BadBackupSuffix,
        }
    }
}

/// What was observed of an item's paths before planning.
#[derive(Debug)]
pub struct Observed {
    pub source: PathKind,
    /// Whether the source is a directory, following symlinks.
    pub source_is_dir: bool,
    pub target: PathKind,
    /// Whether source and target are files with the same bytes.
    pub same_content: bool,
    /// The text of a template source.
    pub source_text: String,
    /// The text of the target, when it exists (empty when unreadable).
    pub target_text: Option<String>,
}

pub ghost struct ObservedView {
    pub source: KindView,
    pub source_is_dir: bool,
    pub target: KindView,
    pub same_content: bool,
    pub source_text: Seq<char>,
    pub target_text: Option<Seq<char>>,
}

impl View for Observed {
    type V = ObservedView;

    open spec fn view(&self) -> ObservedView {
        ObservedView {
            source: self.source@,
            source_is_dir: self.source_is_dir,
            target: self.target@,
            same_content: self.same_content,
            source_text: self.source_text@,
            target_text: match self.target_text {
                Some(t) => Some(t@),
                None => None,
            },
        }
    }
}

/// Creating the parent directory of `target`, where it has a non-empty one.
pub open spec fn parent_ops(target: Seq<char>) -> Seq<OpView> {
    match parent_path(target) {
        Some(p) => if p.len() > 0 {
            seq![OpView::CreateDirAll(p)]
        } else {
            Seq::empty()
        },
        None => Seq::empty(),
    }
}

/// Linking `item`'s target to its source, creating the parent first.
pub open spec fn link_ops(item: ItemView, obs: ObservedView) -> Seq<OpView> {
    parent_ops(item.target) + seq![OpView::Symlink(item.source, item.target, obs.source is Symlink)]
}

/// The path a backup of `target` takes: its file name followed by `stamp`,
/// the backup suffix written out for the time now.
pub open spec fn backup_spec(target: Seq<char>, stamp: Option<Seq<char>>) -> Result<Seq<char>, ErrorView> {
    match file_name_of(target) {
        None => Err(ErrorView::NoFileName),
        Some(n) => match stamp {
            None => Err(ErrorView::BadBackupSuffix),
            Some(s) => Ok(
                join_path(
                    match parent_path(target) {
                        Some(p) => p,
                        None => Seq::empty(),
                    },
                    n + s,
                ),
            ),
        },
    }
}

pub open spec fn spec_external_reason(p: Seq<char>) -> Seq<char> {
    "external symlink: "@ + p
}

pub open spec fn spec_exists_reason() -> Seq<char> {
    "file exists (use --force to backup)"@
}

pub open spec fn spec_broken_source_reason() -> Seq<char> {
    "source is broken symlink"@
}

/// The decision for a template item whose rendering is `rendered`.
pub open spec fn template_decision(item: ItemView, obs: ObservedView, rendered: Seq<char>) -> (ResultView, Seq<OpView>) {
    let entry = if item.strategy.spec_is_copy() {
        ManifestEntry::Copy
    } else {
        ManifestEntry::Rendered
    };
    if obs.target_text == Some(rendered) {
        (ResultView::AlreadyCorrect(entry), Seq::empty())
    } else {
        (ResultView::Created(entry), parent_ops(item.target) + seq![OpView::WriteFile(item.target, rendered)])
    }
}

/// The decision for an item under the copy strategy.
pub open spec fn copy_decision(item: ItemView, obs: ObservedView) -> (ResultView, Seq<OpView>) {
    let copy = if obs.source_is_dir {
        OpView::CopyDir(item.source, item.target)
    } else {
        OpView::CopyFile(item.source, item.target)
    };
    let created = ResultView::Created(ManifestEntry::Copy);
    match obs.target {
        KindView::Absent => (created, parent_ops(item.target) + seq![copy]),
        KindView::Symlink { .. } => (created, parent_ops(item.target) + seq![OpView::RemoveFile(item.target), copy]),
        _ => if obs.source_is_dir {
            (created, parent_ops(item.target) + seq![OpView::RemoveDirAll(item.target), copy])
        } else if obs.same_content {
            (ResultView::AlreadyCorrect(ManifestEntry::Copy), Seq::empty())
        } else {
            (created, parent_ops(item.target) + seq![copy])
        },
    }
}

/// The decision for an item linked by symlink, whose target is in `state`.
pub open spec fn symlink_decision(
    item: ItemView,
    obs: ObservedView,
    state: StateView,
    force: bool,
    stamp: Option<Seq<char>>,
) -> Result<(ResultView, Seq<OpView>), ErrorView> {
    let created = ResultView::Created(ManifestEntry::Symlink);
    match state {
        StateView::NotExists => Ok((created, link_ops(item, obs))),
        StateView::SymlinkToExternal(p) => Ok((ResultView::Skipped(spec_external_reason(p)), Seq::empty())),
        StateView::RegularFile | StateView::Directory => if force {
            match backup_spec(item.target, stamp) {
                Ok(b) => Ok(
                    (
                        ResultView::BackedUp(b, ManifestEntry::Symlink),
                        seq![OpView::Rename(item.target, b)] + link_ops(item, obs),
                    ),
                ),
                Err(e) => Err(e),
            }
        } else {
            Ok((ResultView::Skipped(spec_exists_reason()), Seq::empty()))
        },
        _ => Ok((created, seq![OpView::RemoveFile(item.target)] + link_ops(item, obs))),
    }
}

/// The decision for `item`, before dry-run is taken into account.
pub open spec fn decide_link(
    replaceable: Seq<Seq<char>>,
    item: ItemView,
    repo: Seq<char>,
    force: bool,
    obs: ObservedView,
    rendered: Seq<char>,
    stamp: Option<Seq<char>>,
) -> Result<(ResultView, Seq<OpView>), ErrorView> {
    if item.is_template {
        Ok(template_decision(item, obs, rendered))
    } else if obs.source matches KindView::Symlink { dest_exists, .. } && !dest_exists {
        Ok((ResultView::Skipped(spec_broken_source_reason()), Seq::empty()))
    } else if item.strategy.spec_is_copy() {
        Ok(copy_decision(item, obs))
    } else {
        symlink_decision(item, obs, classify_spec(item.target, obs.target, repo, replaceable), force, stamp)
    }
}

/// A decision with its operations dropped in a dry run.
pub open spec fn with_effects(
    d: Result<(ResultView, Seq<OpView>), ErrorView>,
    dry_run: bool,
) -> Result<(ResultView, Seq<OpView>), ErrorView> {
    match d {
        Ok((r, ops)) => Ok((r, if dry_run { Seq::empty() } else { ops })),
        Err(e) => Err(e),
    }
}

pub open spec fn plan_view(r: Result<LinkPlan, LinkError>) -> Result<(ResultView, Seq<OpView>), ErrorView> {
    match r {
        Ok(p) => Ok(p@),
        Err(e) => Err(e@),
    }
}

/// Whether chrono's strftime syntax accepts `format`.
pub uninterp spec fn time_format_valid(format: Seq<char>) -> bool;

/// Relies on chrono::Local::now and chrono's strftime formatting: the local
/// time now, written out by `format`; `None` exactly where the format does
/// not parse, which depends on the format alone.
#[verifier::external_body]
fn local_time_formatted(format: &str) -> (r: Option<String>)
    ensures
        r is Some == time_format_valid(format@),
{
    let mut s = String::new();
    match write!(s, "{}", chrono::Local::now().format(format)) {
        Ok(()) => Some(s),
        Err(_) => None,
    }
}

fn push_parent_op(ops: &mut Vec<FsOp>, target: &str)
    ensures
        ops_view(final(ops)@) == ops_view(old(ops)@) + parent_ops(target@),
{
    let ghost before = ops_view(ops@);
    match parent(target) {
        Some(p) => {
            if p.as_str().unicode_len() > 0 {
                let ghost pv = p@;
                ops.push(FsOp::CreateDirAll { path: p });
                assert(ops_view(ops@) =~= before + seq![OpView::CreateDirAll(pv)]);
            } else {
                assert(ops_view(ops@) =~= before + Seq::<OpView>::empty());
            }
        },
        None => {
            assert(ops_view(ops@) =~= before + Seq::<OpView>::empty());
        },
    }
}

fn push_op(ops: &mut Vec<FsOp>, op: FsOp)
    ensures
        ops_view(final(ops)@) == ops_view(old(ops)@).push(op@),
{
    let ghost before = ops_view(ops@);
    let ghost ov = op@;
    ops.push(op);
    assert(ops_view(ops@) =~= before.push(ov));
}

fn push_link_ops(ops: &mut Vec<FsOp>, item: &RepoItem, obs: &Observed)
    ensures
        ops_view(final(ops)@) == ops_view(old(ops)@) + link_ops(item@, obs@),
{
    let ghost before = ops_view(ops@);
    push_parent_op(ops, item.target.as_str());
    let resolve_source = match &obs.source {
        PathKind::Symlink { .. } => true,
        _ => false,
    };
    push_op(ops, FsOp::Symlink { source: item.source.clone(), target: item.target.clone(), resolve_source });
    assert(ops_view(ops@) =~= before + link_ops(item@, obs@));
}

/// Plans links and unlinks under the global settings.
#[derive(Debug)]
pub struct Linker {
    pub config: GlobalConfig,
    /// The replaceable roots, with `~` expanded.
    pub replaceable_paths: Vec<String>,
}

impl Linker {
    pub open spec fn replaceable_view(&self) -> Seq<Seq<char>> {
        strings_view(self.replaceable_paths@)
    }

    /// A linker for the settings in `config`, with the replaceable roots
    /// expanded.
    pub fn new(config: GlobalConfig) -> (r: Linker)
        ensures
            r.config == config,
            r.replaceable_paths@.len() == config.settings.replaceable_paths@.len(),
            forall|i: int|
                0 <= i < r.replaceable_paths@.len() ==> tilde_expansion_of(
                    #[trigger] config.settings.replaceable_paths@[i]@,
                    r.replaceable_paths@[i]@,
                ),
    {
        let replaceable_paths = config.expanded_replaceable_paths();
        Linker { config, replaceable_paths }
    }

    /// The path a backup of `path` takes, given the backup suffix written
    /// out for the time now.
    pub fn backup_path_with(path: &str, stamp: &Option<String>) -> (r: Result<String, LinkError>)
        ensures
            plan_path_view(r) == backup_spec(path@, opt_view(*stamp)),
    {
        match file_name(path) {
            None => Err(LinkError::NoFileName),
            Some(n) => match stamp {
                None => Err(LinkError::BadBackupSuffix),
                Some(s) => {
                    let dir = match parent(path) {
                        Some(p) => p,
                        None => String::new(),
                    };
                    let name = concat(n.as_str(), s.as_str());
                    Ok(join(dir.as_str(), name.as_str()))
                },
            },
        }
    }

    /// The path a backup of `path` takes now: its file name followed by the
    /// configured suffix, written out for the local time.
    pub fn backup_path(&self, path: &str) -> (r: Result<String, LinkError>)
        ensures
            exists|stamp: Option<Seq<char>>|
                (stamp is Some == time_format_valid(self.config.settings.backup_suffix@)) && plan_path_view(r)
                    == backup_spec(path@, stamp),
    {
        let stamp = local_time_formatted(self.config.settings.backup_suffix.as_str());
        let r = Linker::backup_path_with(path, &stamp);
        assert((opt_view(stamp) is Some == time_format_valid(self.config.settings.backup_suffix@)) && plan_path_view(r)
            == backup_spec(path@, opt_view(stamp)));
        r
    }

    fn template_plan(item: &RepoItem, obs: &Observed, rendered: &str) -> (r: (LinkResult, Vec<FsOp>))
        ensures
            (r.0@, ops_view(r.1@)) == template_decision(item@, obs@, rendered@),
    {
        let entry = if item.strategy.is_copy() {
            ManifestEntry::Copy
        } else {
            ManifestEntry::Rendered
        };
        let same = match &obs.target_text {
            Some(t) => str_eq(t.as_str(), rendered),
            None => false,
        };
        let mut ops: Vec<FsOp> = Vec::new();
        if same {
            assert(ops_view(ops@) =~= Seq::<OpView>::empty());
            (LinkResult::AlreadyCorrect { entry }, ops)
        } else {
            push_parent_op(&mut ops, item.target.as_str());
            push_op(&mut ops, FsOp::WriteFile { path: item.target.clone(), contents: owned(rendered) });
            assert(ops_view(ops@) =~= parent_ops(item.target@) + seq![OpView::WriteFile(item.target@, rendered@)]);
            (LinkResult::Created { entry }, ops)
        }
    }

    fn copy_plan(item: &RepoItem, obs: &Observed) -> (r: (LinkResult, Vec<FsOp>))
        ensures
            (r.0@, ops_view(r.1@)) == copy_decision(item@, obs@),
    {
        let mut ops: Vec<FsOp> = Vec::new();
        let copy = if obs.source_is_dir {
            FsOp::CopyDir { from: item.source.clone(), to: item.target.clone() }
        } else {
            FsOp::CopyFile { from: item.source.clone(), to: item.target.clone() }
        };
        let ghost cv = copy@;
        let ghost pre = parent_ops(item.target@);
        match &obs.target {
            PathKind::Absent => {
                push_parent_op(&mut ops, item.target.as_str());
                push_op(&mut ops, copy);
                assert(ops_view(ops@) =~= pre + seq![cv]);
            },
            PathKind::Symlink { .. } => {
                push_parent_op(&mut ops, item.target.as_str());
                push_op(&mut ops, FsOp::RemoveFile { path: item.target.clone() });
                push_op(&mut ops, copy);
                assert(ops_view(ops@) =~= pre + seq![OpView::RemoveFile(item.target@), cv]);
            },
            _ => {
                if obs.source_is_dir {
                    push_parent_op(&mut ops, item.target.as_str());
                    push_op(&mut ops, FsOp::RemoveDirAll { path: item.target.clone() });
                    push_op(&mut ops, copy);
                    assert(ops_view(ops@) =~= pre + seq![OpView::RemoveDirAll(item.target@), cv]);
                } else if obs.same_content {
                    assert(ops_view(ops@) =~= Seq::<OpView>::empty());
                    return (LinkResult::AlreadyCorrect { entry: ManifestEntry::Copy }, ops);
                } else {
                    push_parent_op(&mut ops, item.target.as_str());
                    push_op(&mut ops, copy);
                    assert(ops_view(ops@) =~= pre + seq![cv]);
                }
            },
        }
        (LinkResult::Created { entry: ManifestEntry::Copy }, ops)
    }

    fn symlink_plan(
        &self,
        item: &RepoItem,
        obs: &Observed,
        repo_path: &str,
        force: bool,
        stamp: &Option<String>,
    ) -> (r: Result<(LinkResult, Vec<FsOp>), LinkError>)
        ensures
            match r {
                Ok(p) => symlink_decision(
                    item@,
                    obs@,
                    classify_spec(item.target@, obs.target@, repo_path@, self.replaceable_view()),
                    force,
                    opt_view(*stamp),
                ) == Ok::<(ResultView, Seq<OpView>), ErrorView>((p.0@, ops_view(p.1@))),
                Err(e) => symlink_decision(
                    item@,
                    obs@,
                    classify_spec(item.target@, obs.target@, repo_path@, self.replaceable_view()),
                    force,
                    opt_view(*stamp),
                ) == Err::<(ResultView, Seq<OpView>), ErrorView>(e@),
            },
    {
        let state = classify_target(item.target.as_str(), &obs.target, repo_path, &self.replaceable_paths);
        let mut ops: Vec<FsOp> = Vec::new();
        let ghost lo = link_ops(item@, obs@);
        match state {
            TargetState::NotExists => {
                push_link_ops(&mut ops, item, obs);
                assert(ops_view(ops@) =~= lo);
                Ok((LinkResult::Created { entry: ManifestEntry::Symlink }, ops))
            },
            TargetState::SymlinkToExternal(p) => {
                let reason = concat("external symlink: ", p.as_str());
                assert(ops_view(ops@) =~= Seq::<OpView>::empty());
                Ok((LinkResult::Skipped { reason }, ops))
            },
            TargetState::RegularFile | TargetState::Directory => {
                if force {
                    match Linker::backup_path_with(item.target.as_str(), stamp) {
                        Ok(b) => {
                            let ghost bv = b@;
                            push_op(&mut ops, FsOp::Rename { from: item.target.clone(), to: b.clone() });
                            push_link_ops(&mut ops, item, obs);
                            assert(ops_view(ops@) =~= seq![OpView::Rename(item.target@, bv)] + lo);
                            Ok((LinkResult::BackedUp { backup_path: b, entry: ManifestEntry::Symlink }, ops))
                        },
                        Err(e) => Err(e),
                    }
                } else {
                    assert(ops_view(ops@) =~= Seq::<OpView>::empty());
                    Ok((LinkResult::Skipped { reason: owned("file exists (use --force to backup)") }, ops))
                }
            },
            _ => {
                push_op(&mut ops, FsOp::RemoveFile { path: item.target.clone() });
                push_link_ops(&mut ops, item, obs);
                assert(ops_view(ops@) =~= seq![OpView::RemoveFile(item.target@)] + lo);
                Ok((LinkResult::Created { entry: ManifestEntry::Symlink }, ops))
            },
        }
    }

    /// Plans linking `item`, observed as `obs`, given the rendering of a
    /// template item and the backup suffix written out for the time now.
    /// A dry run returns the same decision with no operations.
    pub fn plan_link(
        &self,
        item: &RepoItem,
        repo_path: &str,
        options: LinkOptions,
        obs: &Observed,
        rendered: &str,
        stamp: &Option<String>,
    ) -> (r: Result<LinkPlan, LinkError>)
        ensures
            plan_view(r) == with_effects(
                decide_link(
                    self.replaceable_view(),
                    item@,
                    repo_path@,
                    options.force,
                    obs@,
                    rendered@,
                    opt_view(*stamp),
                ),
                options.dry_run,
            ),
    {
        let decided: Result<(LinkResult, Vec<FsOp>), LinkError> = if item.is_template {
            Ok(Linker::template_plan(item, obs, rendered))
        } else {
            let broken = match &obs.source {
                PathKind::Symlink { dest_exists, .. } => !*dest_exists,
                _ => false,
            };
            if broken {
                let ops: Vec<FsOp> = Vec::new();
                assert(ops_view(ops@) =~= Seq::<OpView>::empty());
                Ok((LinkResult::Skipped { reason: owned("source is broken symlink") }, ops))
            } else if item.strategy.is_copy() {
                Ok(Linker::copy_plan(item, obs))
            } else {
                self.symlink_plan(item, obs, repo_path, options.force, stamp)
            }
        };
        match decided {
            Ok((result, ops)) => {
                if options.dry_run {
                    let none: Vec<FsOp> = Vec::new();
                    assert(ops_view(none@) =~= Seq::<OpView>::empty());
                    Ok(LinkPlan { result, ops: none })
                } else {
                    Ok(LinkPlan { result, ops })
                }
            },
            Err(e) => Err(e),
        }
    }
}

pub open spec fn spec_absent_reason() -> Seq<char> {
    "does not exist"@
}

/// Removing `target`: a real directory with everything below it, anything
/// else as a file.
pub open spec fn removal_ops(target: Seq<char>, kind: KindView) -> Seq<OpView> {
    if kind is Dir {
        seq![OpView::RemoveDirAll(target)]
    } else {
        seq![OpView::RemoveFile(target)]
    }
}

/// The decision for unlinking `item` whose target is observed as `kind`: a
/// missing target is skipped; a symlink is removed only where it resolves
/// to the item's source or the item is a template; anything else only for
/// templates and copies.
pub open spec fn decide_unlink(item: ItemView, kind: KindView) -> (ResultView, Seq<OpView>) {
    match kind {
        KindView::Absent => (ResultView::Skipped(spec_absent_reason()), Seq::empty()),
        KindView::Symlink { link, .. } => if resolve_link_spec(item.target, link) != item.source && !item.is_template {
            (ResultView::Skipped("symlink points elsewhere"@), Seq::empty())
        } else {
            (ResultView::Unlinked, removal_ops(item.target, kind))
        },
        _ => if !item.is_template && !item.strategy.spec_is_copy() {
            (ResultView::Skipped("not a symlink"@), Seq::empty())
        } else {
            (ResultView::Unlinked, removal_ops(item.target, kind))
        },
    }
}

/// The decision for unlinking the path `target`, observed as `kind`, that
/// the manifest records as `entry`. The recorded kind must still match what
/// is there: a symlink for `Symlink`, a file or directory for `Copy`, a file
/// for `Rendered`.
pub open spec fn decide_unlink_recorded(target: Seq<char>, kind: KindView, entry: ManifestEntry) -> (ResultView, Seq<OpView>) {
    if kind is Absent {
        (ResultView::Skipped(spec_absent_reason()), Seq::empty())
    } else {
        match entry {
            ManifestEntry::Symlink => if kind is Symlink {
                (ResultView::Unlinked, seq![OpView::RemoveFile(target)])
            } else {
                (ResultView::Skipped("expected symlink, found regular file"@), Seq::empty())
            },
            ManifestEntry::Copy => if kind is Symlink {
                (ResultView::Skipped("expected copy, found symlink"@), Seq::empty())
            } else {
                (ResultView::Unlinked, removal_ops(target, kind))
            },
            ManifestEntry::Rendered => if kind is File {
                (ResultView::Unlinked, seq![OpView::RemoveFile(target)])
            } else if kind is Dir {
                (ResultView::Skipped("expected file, found directory"@), Seq::empty())
            } else {
                (ResultView::Skipped("expected file, found symlink"@), Seq::empty())
            },
        }
    }
}

/// A decision with its operations dropped in a dry run.
pub open spec fn effects_of(d: (ResultView, Seq<OpView>), dry_run: bool) -> (ResultView, Seq<OpView>) {
    (d.0, if dry_run { Seq::empty() } else { d.1 })
}

fn removal(target: &str, kind: &PathKind) -> (r: Vec<FsOp>)
    ensures
        ops_view(r@) == removal_ops(target@, kind@),
{
    let mut ops: Vec<FsOp> = Vec::new();
    match kind {
        PathKind::Dir => ops.push(FsOp::RemoveDirAll { path: owned(target) }),
        _ => ops.push(FsOp::RemoveFile { path: owned(target) }),
    }
    assert(ops_view(ops@) =~= removal_ops(target@, kind@));
    ops
}

fn finish(result: LinkResult, ops: Vec<FsOp>, dry_run: bool) -> (r: LinkPlan)
    ensures
        r@ == effects_of((result@, ops_view(ops@)), dry_run),
{
    if dry_run {
        let none: Vec<FsOp> = Vec::new();
        assert(ops_view(none@) =~= Seq::<OpView>::empty());
        LinkPlan { result, ops: none }
    } else {
        LinkPlan { result, ops }
    }
}

fn skip(reason: &str) -> (r: (LinkResult, Vec<FsOp>))
    ensures
        r.0@ == ResultView::Skipped(reason@),
        ops_view(r.1@) == Seq::<OpView>::empty(),
{
    let ops: Vec<FsOp> = Vec::new();
    assert(ops_view(ops@) =~= Seq::<OpView>::empty());
    (LinkResult::Skipped { reason: owned(reason) }, ops)
}

impl Linker {
    /// Plans removing `item`'s target, observed as `target` (see
    /// `decide_unlink`). A dry run returns the same decision with no
    /// operations.
    pub fn unlink_item(&self, item: &RepoItem, target: &PathKind, options: LinkOptions) -> (r: LinkPlan)
        ensures
            r@ == effects_of(decide_unlink(item@, target@), options.dry_run),
    {
        let (result, ops) = match target {
            PathKind::Absent => skip("does not exist"),
            PathKind::Symlink { link, .. } => {
                let resolved = resolve_link(item.target.as_str(), link.as_str());
                if !str_eq(resolved.as_str(), item.source.as_str()) && !item.is_template {
                    skip("symlink points elsewhere")
                } else {
                    (LinkResult::Unlinked, removal(item.target.as_str(), target))
                }
            },
            _ => {
                if !item.is_template && !item.strategy.is_copy() {
                    skip("not a symlink")
                } else {
                    (LinkResult::Unlinked, removal(item.target.as_str(), target))
                }
            },
        };
        finish(result, ops, options.dry_run)
    }

    /// Plans removing `target`, observed as `kind`, as the manifest records
    /// it (see `decide_unlink_recorded`). A dry run returns the same decision
    /// with no operations.
    pub fn unlink_from_manifest(&self, target: &str, kind: &PathKind, entry: ManifestEntry, options: LinkOptions) -> (r: LinkPlan)
        ensures
            r@ == effects_of(decide_unlink_recorded(target@, kind@, entry), options.dry_run),
    {
        let (result, ops) = match kind {
            PathKind::Absent => skip("does not exist"),
            _ => match entry {
                ManifestEntry::Symlink => match kind {
                    PathKind::Symlink { .. } => (LinkResult::Unlinked, removal(target, kind)),
                    _ => skip("expected symlink, found regular file"),
                },
                ManifestEntry::Copy => match kind {
                    PathKind::Symlink { .. } => skip("expected copy, found symlink"),
                    _ => (LinkResult::Unlinked, removal(target, kind)),
                },
                ManifestEntry::Rendered => match kind {
                    PathKind::File => (LinkResult::Unlinked, removal(target, kind)),
                    PathKind::Dir => skip("expected file, found directory"),
                    _ => skip("expected file, found symlink"),
                },
            },
        };
        finish(result, ops, options.dry_run)
    }
}

/// The text a template item renders to; other items render nothing.
pub open spec fn rendering_for(is_template: bool, source_text: Seq<char>, vars: Seq<(Seq<char>, Seq<char>)>) -> Option<Seq<char>> {
    if is_template {
        render_spec(source_text, vars)
    } else {
        Some(Seq::empty())
    }
}

/// What linking `item` against the template variables `vars` gives: a
/// template that does not render is an error; otherwise the plan is the
/// decision for the rendering, with some backup stamp taken at the time.
pub open spec fn link_outcome(
    linker: Linker,
    item: RepoItem,
    vars: Seq<(Seq<char>, Seq<char>)>,
    repo: Seq<char>,
    options: LinkOptions,
    obs: ObservedView,
    r: Result<LinkPlan, LinkError>,
) -> bool {
    match rendering_for(item.is_template, obs.source_text, vars) {
        None => r matches Err(LinkError::Render { .. }),
        Some(text) => exists|stamp: Option<Seq<char>>|
            (stamp is Some == time_format_valid(linker.config.settings.backup_suffix@)) && plan_view(r) == with_effects(
                decide_link(linker.replaceable_view(), item@, repo, options.force, obs, text, stamp),
                options.dry_run,
            ),
    }
}

impl Linker {
    /// Plans linking `item`, observed as `obs`: a template is rendered
    /// against `vars`, and a backup, where one is due, is named for the time
    /// now (see `plan_link`).
    pub fn link_item(
        &self,
        item: &RepoItem,
        vars: &VarMap,
        repo_path: &str,
        options: LinkOptions,
        obs: &Observed,
    ) -> (r: Result<LinkPlan, LinkError>)
        ensures
            link_outcome(*self, *item, vars@, repo_path@, options, obs@, r),
    {
        let rendered = if item.is_template {
            let engine = TemplateEngine::new();
            match engine.render_string(obs.source_text.as_str(), vars) {
                Ok(text) => text,
                Err(message) => {
                    return Err(LinkError::Render { message });
                },
            }
        } else {
            String::new()
        };
        assert(item.is_template ==> render_spec(obs.source_text@, vars@) == Some(rendered@));
        assert(!item.is_template ==> rendered@ =~= Seq::<char>::empty());
        let stamp = local_time_formatted(self.config.settings.backup_suffix.as_str());
        let r = self.plan_link(item, repo_path, options, obs, rendered.as_str(), &stamp);
        assert(plan_view(r) == with_effects(
            decide_link(self.replaceable_view(), item@, repo_path@, options.force, obs@, rendered@, opt_view(stamp)),
            options.dry_run,
        ));
        let ghost text: Seq<char> = rendered@;
        assert(rendering_for(item.is_template, obs.source_text@, vars@) == Some(text));
        assert(exists|st: Option<Seq<char>>|
            (st is Some == time_format_valid(self.config.settings.backup_suffix@)) && plan_view(r) == with_effects(
                decide_link(self.replaceable_view(), item@, repo_path@, options.force, obs@, text, st),
                options.dry_run,
            ));
        r
    }
}

pub open spec fn opt_view(o: Option<String>) -> Option<Seq<char>> {
    match o {
        Some(s) => Some(s@),
        None => None,
    }
}

pub open spec fn plan_path_view(r: Result<String, LinkError>) -> Result<Seq<char>, ErrorView> {
    match r {
        Ok(s) => Ok(s@),
        Err(e) => Err(e@),
    }
}

} // verus!
