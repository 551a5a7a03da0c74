//! Laws of the reconciliation engine, over a model of the filesystem.
//!
//! The model maps each path to what is there: a file with its text, a
//! directory, or a symlink with its value. It does not follow symlinks, and
//! removing a directory removes that path alone.
use vstd::prelude::*;
use crate::linker::{
    classify_spec, decide_link, decide_unlink, effects_of, backup_spec, resolve_link_spec, with_effects, ErrorView, KindView, ObservedView,
    OpView, ResultView, parent_ops, link_ops,
};
use crate::paths::{file_name_of, is_absolute, lemma_last_sep, parent_path};
use crate::manifest::ManifestEntry;
use crate::repo::ItemView;

verus! {

pub ghost enum Node {
    File(Seq<char>),
    Dir,
    Link(Seq<char>),
}

/// Whether a file is at `p`.
pub open spec fn holds_file(fs: Map<Seq<char>, Node>, p: Seq<char>) -> bool {
    match fs.get(p) {
        Some(Node::File(_)) => true,
        _ => false,
    }
}

/// The filesystem after `op`.
pub open spec fn apply_op(fs: Map<Seq<char>, Node>, op: OpView) -> Map<Seq<char>, Node> {
    match op {
        OpView::CreateDirAll(p) => if fs.contains_key(p) {
            fs
        } else {
            fs.insert(p, Node::Dir)
        },
        OpView::RemoveFile(p) => fs.remove(p),
        OpView::RemoveDirAll(p) => fs.remove(p),
        OpView::Rename(from, to) => if fs.contains_key(from) {
            fs.remove(from).insert(to, fs[from])
        } else {
            fs
        },
        OpView::Symlink(source, target, _) => fs.insert(target, Node::Link(source)),
        OpView::WriteFile(p, text) => fs.insert(p, Node::File(text)),
        OpView::CopyFile(from, to) => match fs.get(from) {
            Some(Node::File(t)) => fs.insert(to, Node::File(t)),
            _ => fs,
        },
        OpView::CopyDir(_, to) => fs.insert(to, Node::Dir),
    }
}

/// The filesystem after `ops`, in order.
pub open spec fn apply_ops(fs: Map<Seq<char>, Node>, ops: Seq<OpView>) -> Map<Seq<char>, Node>
    decreases ops.len(),
{
    if ops.len() == 0 {
        fs
    } else {
        apply_ops(apply_op(fs, ops[0]), ops.drop_first())
    }
}

/// What is at `p`, as the planners observe it.
pub open spec fn kind_in(fs: Map<Seq<char>, Node>, p: Seq<char>) -> KindView {
    match fs.get(p) {
        None => KindView::Absent,
        Some(Node::File(_)) => KindView::File,
        Some(Node::Dir) => KindView::Dir,
        Some(Node::Link(l)) => KindView::Symlink {
            link: l,
            dest_exists: fs.contains_key(resolve_link_spec(p, l)),
        },
    }
}

pub open spec fn text_of(n: Option<Node>) -> Option<Seq<char>> {
    match n {
        Some(Node::File(t)) => Some(t),
        Some(_) => Some(Seq::empty()),
        None => None,
    }
}

/// What planning observes of `item` in `fs`.
pub open spec fn observe(fs: Map<Seq<char>, Node>, item: ItemView) -> ObservedView {
    ObservedView {
        source: kind_in(fs, item.source),
        source_is_dir: fs.get(item.source) == Some(Node::Dir),
        target: kind_in(fs, item.target),
        same_content: fs.get(item.source) is Some && fs.get(item.source) == fs.get(item.target) && fs.get(
            item.source,
        )->0 is File,
        source_text: match fs.get(item.source) {
            Some(Node::File(t)) => t,
            _ => Seq::empty(),
        },
        target_text: match fs.get(item.target) {
            Some(Node::Link(l)) => text_of(fs.get(resolve_link_spec(item.target, l))),
            n => text_of(n),
        },
    }
}

proof fn lemma_apply_concat(fs: Map<Seq<char>, Node>, a: Seq<OpView>, b: Seq<OpView>)
    ensures
        apply_ops(fs, a + b) == apply_ops(apply_ops(fs, a), b),
    decreases a.len(),
{
    if a.len() == 0 {
        assert(a + b =~= b);
    } else {
        assert((a + b).drop_first() =~= a.drop_first() + b);
        assert((a + b)[0] == a[0]);
        lemma_apply_concat(apply_op(fs, a[0]), a.drop_first(), b);
    }
}

proof fn lemma_apply_one(fs: Map<Seq<char>, Node>, op: OpView)
    ensures
        apply_ops(fs, seq![op]) == apply_op(fs, op),
{
    assert(seq![op].drop_first() =~= Seq::<OpView>::empty());
    assert(seq![op][0] == op);
    assert(apply_ops(apply_op(fs, op), Seq::<OpView>::empty()) == apply_op(fs, op));
}

/// Creating a target's parent leaves the target itself, and every path
/// already present, as they were.
proof fn lemma_parent_ops(fs: Map<Seq<char>, Node>, t: Seq<char>)
    ensures
        apply_ops(fs, parent_ops(t)).dom() == fs.dom() || exists|p: Seq<char>|
            p != t && !fs.contains_key(p) && apply_ops(fs, parent_ops(t)) == fs.insert(p, Node::Dir),
        forall|q: Seq<char>| #[trigger] fs.contains_key(q) ==> apply_ops(fs, parent_ops(t)).get(q) == fs.get(q),
        apply_ops(fs, parent_ops(t)).get(t) == fs.get(t),
{
    lemma_last_sep(t);
    match parent_path(t) {
        Some(p) => {
            if p.len() > 0 {
                lemma_apply_one(fs, OpView::CreateDirAll(p));
                assert(p.len() < t.len());
            } else {
                assert(parent_ops(t) =~= Seq::<OpView>::empty());
            }
        },
        None => {
            assert(parent_ops(t) =~= Seq::<OpView>::empty());
        },
    }
}

/// Whether two filesystems agree on what is at `t` and, for a symlink, on
/// whether the path it points to exists.
pub open spec fn agree_at(a: Map<Seq<char>, Node>, b: Map<Seq<char>, Node>, t: Seq<char>) -> bool {
    &&& a.get(t) == b.get(t)
    &&& match a.get(t) {
        Some(Node::Link(l)) => a.contains_key(resolve_link_spec(t, l)) == b.contains_key(resolve_link_spec(t, l)),
        _ => true,
    }
}

/// Classifying a target depends on the target, the repository root, the
/// replaceable roots and the filesystem alone: two snapshots that agree at
/// the target give the same state, so classifying twice with no change in
/// between gives the same state twice.
pub proof fn classification_is_deterministic(
    t: Seq<char>,
    repo: Seq<char>,
    replaceable: Seq<Seq<char>>,
    a: Map<Seq<char>, Node>,
    b: Map<Seq<char>, Node>,
)
    requires
        agree_at(a, b, t),
    ensures
        classify_spec(t, kind_in(a, t), repo, replaceable) == classify_spec(t, kind_in(b, t), repo, replaceable),
{
}

/// A dry run reaches the same decision as a real one, and changes nothing.
pub proof fn dry_run_decides_alike(
    replaceable: Seq<Seq<char>>,
    item: ItemView,
    repo: Seq<char>,
    force: bool,
    obs: ObservedView,
    rendered: Seq<char>,
    stamp: Option<Seq<char>>,
    fs: Map<Seq<char>, Node>,
)
    ensures
        match (
            with_effects(decide_link(replaceable, item, repo, force, obs, rendered, stamp), true),
            with_effects(decide_link(replaceable, item, repo, force, obs, rendered, stamp), false),
        ) {
            (Ok(dry), Ok(wet)) => dry.0 == wet.0 && apply_ops(fs, dry.1) == fs,
            (Err(a), Err(b)) => a == b,
            _ => false,
        },
{
}

/// Unlinking in a dry run reaches the same decision as a real one, and
/// changes nothing.
pub proof fn dry_unlink_decides_alike(item: ItemView, kind: KindView, fs: Map<Seq<char>, Node>)
    ensures
        effects_of(decide_unlink(item, kind), true).0 == effects_of(decide_unlink(item, kind), false).0,
        apply_ops(fs, effects_of(decide_unlink(item, kind), true).1) == fs,
{
}

/// Linking an item whose target was just brought up to date is a no-op:
/// for a template, and for a copied file whose target is no directory, the
/// second pass finds the target correct and plans no operation.
pub proof fn relinking_changes_nothing(
    replaceable: Seq<Seq<char>>,
    item: ItemView,
    repo: Seq<char>,
    force: bool,
    fs: Map<Seq<char>, Node>,
    rendered: Seq<char>,
    stamp: Option<Seq<char>>,
)
    requires
        item.source != item.target,
        item.is_template || (item.strategy.spec_is_copy() && holds_file(fs, item.source) && fs.get(item.target)
            != Some(Node::Dir)),
        fs.contains_key(item.source),
        decide_link(replaceable, item, repo, force, observe(fs, item), rendered, stamp) is Ok,
    ensures
        ({
            let ops = decide_link(replaceable, item, repo, force, observe(fs, item), rendered, stamp)->Ok_0.1;
            let after = apply_ops(fs, ops);
            &&& after.get(item.source) == fs.get(item.source)
            &&& decide_link(replaceable, item, repo, force, observe(after, item), rendered, stamp) matches Ok(
                (ResultView::AlreadyCorrect(_), again),
            )
            &&& again.len() == 0
        }),
{
    let obs = observe(fs, item);
    let ops = decide_link(replaceable, item, repo, force, obs, rendered, stamp)->Ok_0.1;
    let t = item.target;
    let s = item.source;
    lemma_parent_ops(fs, t);
    let mid = apply_ops(fs, parent_ops(t));
    if item.is_template {
        if obs.target_text != Some(rendered) {
            let w = OpView::WriteFile(t, rendered);
            lemma_apply_concat(fs, parent_ops(t), seq![w]);
            lemma_apply_one(mid, w);
            let after = apply_ops(fs, ops);
            assert(after.get(t) == Some(Node::File(rendered)));
            assert(after.get(s) == fs.get(s));
        }
    } else {
        assert(!(obs.source is Symlink));
        let src = fs[s];
        let copy = OpView::CopyFile(s, t);
        match obs.target {
            KindView::Absent => {
                lemma_apply_concat(fs, parent_ops(t), seq![copy]);
                lemma_apply_one(mid, copy);
            },
            KindView::Symlink { .. } => {
                let rm = OpView::RemoveFile(t);
                lemma_apply_concat(fs, parent_ops(t), seq![rm, copy]);
                assert(seq![rm, copy] =~= seq![rm] + seq![copy]);
                lemma_apply_concat(mid, seq![rm], seq![copy]);
                lemma_apply_one(mid, rm);
                lemma_apply_one(apply_op(mid, rm), copy);
            },
            _ => {
                if !obs.same_content {
                    lemma_apply_concat(fs, parent_ops(t), seq![copy]);
                    lemma_apply_one(mid, copy);
                }
            },
        }
        let after = apply_ops(fs, ops);
        assert(after.get(s) == fs.get(s));
        assert(after.get(t) == fs.get(s));
    }
}

/// Linking an item and then unlinking it leaves its target absent and its
/// source as it was, for items linked by symlink or by copy whose source is
/// a file or directory at an absolute path, wherever the link was made.
pub proof fn link_then_unlink_clears_target(
    replaceable: Seq<Seq<char>>,
    item: ItemView,
    repo: Seq<char>,
    force: bool,
    fs: Map<Seq<char>, Node>,
    stamp: Option<Seq<char>>,
)
    requires
        !item.is_template,
        item.source != item.target,
        is_absolute(item.source),
        fs.get(item.source) == Some(Node::Dir) || holds_file(fs, item.source),
        decide_link(replaceable, item, repo, force, observe(fs, item), Seq::empty(), stamp) matches Ok((r, _))
            && !(r is Skipped),
        backup_spec(item.target, stamp) matches Ok(b) ==> b != item.source,
    ensures
        ({
            let ops = decide_link(replaceable, item, repo, force, observe(fs, item), Seq::empty(), stamp)->Ok_0.1;
            let linked = apply_ops(fs, ops);
            let (r2, ops2) = decide_unlink(item, kind_in(linked, item.target));
            let after = apply_ops(linked, ops2);
            &&& r2 == ResultView::Unlinked
            &&& !after.contains_key(item.target)
            &&& after.get(item.source) == fs.get(item.source)
        }),
{
    let obs = observe(fs, item);
    let ops = decide_link(replaceable, item, repo, force, obs, Seq::empty(), stamp)->Ok_0.1;
    let t = item.target;
    let s = item.source;
    assert(!(obs.source is Symlink));
    lemma_parent_ops(fs, t);
    let linked = apply_ops(fs, ops);
    if item.strategy.spec_is_copy() {
        let copy = if obs.source_is_dir {
            OpView::CopyDir(s, t)
        } else {
            OpView::CopyFile(s, t)
        };
        let mid = apply_ops(fs, parent_ops(t));
        match obs.target {
            KindView::Absent => {
                lemma_apply_concat(fs, parent_ops(t), seq![copy]);
                lemma_apply_one(mid, copy);
            },
            KindView::Symlink { .. } => {
                let rm = OpView::RemoveFile(t);
                lemma_apply_concat(fs, parent_ops(t), seq![rm, copy]);
                assert(seq![rm, copy] =~= seq![rm] + seq![copy]);
                lemma_apply_concat(mid, seq![rm], seq![copy]);
                lemma_apply_one(mid, rm);
                lemma_apply_one(apply_op(mid, rm), copy);
            },
            _ => {
                if obs.source_is_dir {
                    let rm = OpView::RemoveDirAll(t);
                    lemma_apply_concat(fs, parent_ops(t), seq![rm, copy]);
                    assert(seq![rm, copy] =~= seq![rm] + seq![copy]);
                    lemma_apply_concat(mid, seq![rm], seq![copy]);
                    lemma_apply_one(mid, rm);
                    lemma_apply_one(apply_op(mid, rm), copy);
                } else if !obs.same_content {
                    lemma_apply_concat(fs, parent_ops(t), seq![copy]);
                    lemma_apply_one(mid, copy);
                }
            },
        }
        assert(linked.get(s) == fs.get(s));
        assert(linked.contains_key(t));
        assert(!(kind_in(linked, t) is Symlink));
    } else {
        let sl = OpView::Symlink(s, t, false);
        assert(link_ops(item, obs) == parent_ops(t) + seq![sl]);
        let st = crate::linker::classify_spec(t, obs.target, repo, replaceable);
        let pre: Seq<OpView> = match st {
            crate::linker::StateView::NotExists => Seq::empty(),
            crate::linker::StateView::RegularFile | crate::linker::StateView::Directory => seq![
                OpView::Rename(t, backup_spec(t, stamp)->Ok_0),
            ],
            _ => seq![OpView::RemoveFile(t)],
        };
        assert(ops =~= pre + link_ops(item, obs));
        lemma_apply_concat(fs, pre, link_ops(item, obs));
        let before_link = apply_ops(fs, pre);
        assert(before_link.get(s) == fs.get(s)) by {
            if pre.len() == 1 {
                lemma_apply_one(fs, pre[0]);
            } else {
                assert(pre =~= Seq::<OpView>::empty());
            }
        }
        lemma_parent_ops(before_link, t);
        lemma_apply_concat(before_link, parent_ops(t), seq![sl]);
        lemma_apply_one(apply_ops(before_link, parent_ops(t)), sl);
        assert(linked.get(t) == Some(Node::Link(s)));
        assert(linked.get(s) == fs.get(s));
        assert(resolve_link_spec(t, s) == s);
    }
    let (r2, ops2) = decide_unlink(item, kind_in(linked, t));
    lemma_apply_one(linked, ops2[0]);
    assert(ops2 =~= seq![ops2[0]]);
}

/// Forcing a link over a plain file or directory backs it up: the result
/// names the backup path, the original is found there unchanged, and the
/// target becomes a symlink to the source.
pub proof fn forced_link_keeps_backup(
    replaceable: Seq<Seq<char>>,
    item: ItemView,
    repo: Seq<char>,
    fs: Map<Seq<char>, Node>,
    stamp: Seq<char>,
)
    requires
        !item.is_template,
        !item.strategy.spec_is_copy(),
        fs.get(item.source) == Some(Node::Dir) || holds_file(fs, item.source),
        fs.get(item.target) == Some(Node::Dir) || holds_file(fs, item.target),
        file_name_of(item.target) is Some,
        backup_spec(item.target, Some(stamp)) != Ok::<Seq<char>, ErrorView>(item.target),
    ensures
        match decide_link(replaceable, item, repo, true, observe(fs, item), Seq::empty(), Some(stamp)) {
            Ok((ResultView::BackedUp(b, ManifestEntry::Symlink), ops)) => {
                &&& backup_spec(item.target, Some(stamp)) == Ok::<Seq<char>, ErrorView>(b)
                &&& apply_ops(fs, ops).get(b) == fs.get(item.target)
                &&& apply_ops(fs, ops).get(item.target) == Some(Node::Link(item.source))
            },
            _ => false,
        },
{
    let obs = observe(fs, item);
    let t = item.target;
    let s = item.source;
    assert(!(obs.source is Symlink));
    let b = backup_spec(t, Some(stamp))->Ok_0;
    let rn = OpView::Rename(t, b);
    let sl = OpView::Symlink(s, t, false);
    let ops = seq![rn] + link_ops(item, obs);
    lemma_apply_concat(fs, seq![rn], link_ops(item, obs));
    lemma_apply_one(fs, rn);
    let moved = apply_op(fs, rn);
    assert(moved.get(b) == fs.get(t));
    lemma_parent_ops(moved, t);
    lemma_apply_concat(moved, parent_ops(t), seq![sl]);
    lemma_apply_one(apply_ops(moved, parent_ops(t)), sl);
    assert(apply_ops(moved, parent_ops(t)).get(b) == fs.get(t));
}

} // verus!
