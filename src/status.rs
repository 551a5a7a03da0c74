//! Read-only linkage status of items, for reporting.
use vstd::prelude::*;
use crate::linker::{resolve_link, resolve_link_spec, KindView, PathKind};
use crate::paths::{path_starts_with, starts_with_path};
use crate::repo::{ItemView, RepoItem};
use crate::text::str_eq;

verus! {

/// Counts of item statuses in one repository.
#[derive(Debug, Default)]
pub struct RepoStatus {
    pub linked: usize,
    pub external: usize,
    pub missing: usize,
    pub conflict: usize,
    pub rendered: usize,
}

/// The linkage state of one item.
#[derive(Debug)]
pub enum ItemStatus {
    Linked,
    External(String),
    Missing,
    Conflict,
    Rendered,
}

pub ghost enum StatusView {
    Linked,
    External(Seq<char>),
    Missing,
    Conflict,
    Rendered,
}

impl View for ItemStatus {
    type V = StatusView;

    open spec fn view(&self) -> StatusView {
        match self {
            ItemStatus::Linked => StatusView::Linked,
            ItemStatus::External(p) => StatusView::External(p@),
            ItemStatus::Missing => StatusView::Missing,
            ItemStatus::Conflict => StatusView::Conflict,
            ItemStatus::Rendered => StatusView::Rendered,
        }
    }
}

/// Whether something exists at a path of kind `kind`, following symlinks.
pub open spec fn exists_following(kind: KindView) -> bool {
    match kind {
        KindView::Absent => false,
        KindView::Symlink { dest_exists, .. } => dest_exists,
        _ => true,
    }
}

/// The status of `item` whose target is observed as `kind`: a template is
/// rendered where its target exists; otherwise a missing target is missing,
/// one that is no symlink a conflict, and a symlink is linked where it
/// resolves to the source or into the repository, external elsewhere.
pub open spec fn status_spec(item: ItemView, kind: KindView, repo: Seq<char>) -> StatusView {
    if item.is_template {
        if exists_following(kind) {
            StatusView::Rendered
        } else {
            StatusView::Missing
        }
    } else {
        match kind {
            KindView::Absent => StatusView::Missing,
            KindView::Symlink { link, .. } => {
                let resolved = resolve_link_spec(item.target, link);
                if resolved == item.source || path_starts_with(resolved, repo) {
                    StatusView::Linked
                } else {
                    StatusView::External(resolved)
                }
            },
            _ => StatusView::Conflict,
        }
    }
}

/// Classifies `item` for reporting (see `status_spec`); never consults
/// `force` and changes nothing.
pub fn check_item_status(item: &RepoItem, kind: &PathKind, repo_path: &str) -> (r: ItemStatus)
    ensures
        r@ == status_spec(item@, kind@, repo_path@),
{
    if item.is_template {
        let exists = match kind {
            PathKind::Absent => false,
            PathKind::Symlink { dest_exists, .. } => *dest_exists,
            _ => true,
        };
        return if exists {
            ItemStatus::Rendered
        } else {
            ItemStatus::Missing
        };
    }
    match kind {
        PathKind::Absent => ItemStatus::Missing,
        PathKind::Symlink { link, .. } => {
            let resolved = resolve_link(item.target.as_str(), link.as_str());
            if str_eq(resolved.as_str(), item.source.as_str()) || starts_with_path(resolved.as_str(), repo_path) {
                ItemStatus::Linked
            } else {
                ItemStatus::External(resolved)
            }
        },
        _ => ItemStatus::Conflict,
    }
}

/// How a copy in the target tree differs from the repository's version.
#[derive(Debug, Clone, Copy, PartialEq, Eq, Structural)]
pub enum Difference {
    /// Both are files, with different contents.
    Modified,
    /// The target is a plain file or directory where the repository has
    /// something that is not a file of the same kind.
    Replaced,
}

/// The difference reported for `item`: none for templates, for missing
/// targets and for symlinks; otherwise `Modified` when both sides are files
/// whose contents differ, none when they are equal, and `Replaced` when they
/// are not both files.
pub open spec fn difference_spec(
    item: ItemView,
    target: KindView,
    source_is_file: bool,
    target_is_file: bool,
    same_content: bool,
) -> Option<Difference> {
    if item.is_template || target is Absent || target is Symlink {
        None
    } else if source_is_file && target_is_file {
        if same_content {
            None
        } else {
            Some(Difference::Modified)
        }
    } else {
        Some(Difference::Replaced)
    }
}

/// The difference between `item`'s source and its target (see
/// `difference_spec`).
pub fn item_difference(
    item: &RepoItem,
    target: &PathKind,
    source_is_file: bool,
    target_is_file: bool,
    same_content: bool,
) -> (r: Option<Difference>)
    ensures
        r == difference_spec(item@, target@, source_is_file, target_is_file, same_content),
{
    let skip = match target {
        PathKind::Absent => true,
        PathKind::Symlink { .. } => true,
        _ => false,
    };
    if item.is_template || skip {
        None
    } else if source_is_file && target_is_file {
        if same_content {
            None
        } else {
            Some(Difference::Modified)
        }
    } else {
        Some(Difference::Replaced)
    }
}

impl RepoStatus {
    pub open spec fn spec_total(&self) -> int {
        self.linked + self.external + self.missing + self.conflict + self.rendered
    }

    pub fn new() -> (r: RepoStatus)
        ensures
            r.spec_total() == 0,
    {
        RepoStatus { linked: 0, external: 0, missing: 0, conflict: 0, rendered: 0 }
    }

    /// Counts one more item of status `status`.
    pub fn record(&mut self, status: &ItemStatus)
        requires
            old(self).spec_total() < usize::MAX,
        ensures
            final(self).spec_total() == old(self).spec_total() + 1,
            final(self).linked == old(self).linked + (if status is Linked { 1int } else { 0 }),
            final(self).external == old(self).external + (if status is External { 1int } else { 0 }),
            final(self).missing == old(self).missing + (if status is Missing { 1int } else { 0 }),
            final(self).conflict == old(self).conflict + (if status is Conflict { 1int } else { 0 }),
            final(self).rendered == old(self).rendered + (if status is Rendered { 1int } else { 0 }),
    {
        match status {
            ItemStatus::Linked => self.linked = self.linked + 1,
            ItemStatus::External(_) => self.external = self.external + 1,
            ItemStatus::Missing => self.missing = self.missing + 1,
            ItemStatus::Conflict => self.conflict = self.conflict + 1,
            ItemStatus::Rendered => self.rendered = self.rendered + 1,
        }
    }

    /// The number of items counted.
    pub fn total(&self) -> (r: usize)
        requires
            self.spec_total() <= usize::MAX,
        ensures
            r == self.spec_total(),
    {
        self.linked + self.external + self.missing + self.conflict + self.rendered
    }
}

} // verus!
