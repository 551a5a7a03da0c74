use homie::config::{GlobalConfig, IgnoreConfig, RepoConfig, RepoDefaults};
use homie::import::{Import, ImportSource};
use homie::linker::{
    classify_target, resolve_link, FsOp, LinkError, LinkOptions, LinkResult, Linker, Observed, PathKind,
    TargetState,
};
use homie::manifest::{Manifest, ManifestEntry};
use homie::config::PathRemap;
use homie::repo::{compute_target, Repo, RepoItem, WalkEntry};
use homie::status::{check_item_status, item_difference, Difference, ItemStatus, RepoStatus};
use homie::strategy::Strategy;
use homie::vars::VarMap;

fn item(source: &str, target: &str, strategy: Strategy) -> RepoItem {
    RepoItem {
        source: source.to_string(),
        target: target.to_string(),
        relative_path: "file.txt".to_string(),
        is_template: false,
        strategy,
    }
}

fn observed(source: PathKind, target: PathKind) -> Observed {
    Observed {
        source,
        source_is_dir: false,
        target,
        same_content: false,
        source_text: String::new(),
        target_text: None,
    }
}

fn link(target: &str) -> PathKind {
    PathKind::Symlink { link: target.to_string(), dest_exists: true }
}

fn default_options() -> LinkOptions {
    LinkOptions::default()
}

fn linker() -> Linker {
    Linker::new(GlobalConfig::default())
}

fn stamp() -> Option<String> {
    Some(".backup.20240101000000".to_string())
}

#[test]
fn test_compute_target() {
    let target = compute_target("/home/user", ".config/app/config.toml", false);
    assert_eq!(target, "/home/user/.config/app/config.toml");
}

#[test]
fn test_compute_target_template() {
    let target = compute_target("/home/user", ".config/app/config.toml.tmpl", true);
    assert_eq!(target, "/home/user/.config/app/config.toml");
}

#[test]
fn test_classify_target_not_exists() {
    let state = classify_target("/tmp/t/nonexistent", &PathKind::Absent, "/tmp/t/repo", &vec![]);
    assert!(matches!(state, TargetState::NotExists));
}

#[test]
fn classify_files_and_directories() {
    assert!(matches!(classify_target("/t/file.txt", &PathKind::File, "/t/repo", &vec![]), TargetState::RegularFile));
    assert!(matches!(classify_target("/t/dir", &PathKind::Dir, "/t/repo", &vec![]), TargetState::Directory));
}

#[test]
fn classify_symlinks() {
    let repl = vec!["/t/replaceable".to_string()];
    assert!(matches!(classify_target("/t/link", &link("/t/repo/file.txt"), "/t/repo", &repl), TargetState::SymlinkToRepo));
    assert!(matches!(
        classify_target("/t/link", &link("/t/replaceable/file.txt"), "/t/repo", &repl),
        TargetState::SymlinkToReplaceable
    ));
    match classify_target("/t/link", &link("external/file.txt"), "/t/repo", &repl) {
        TargetState::SymlinkToExternal(p) => assert_eq!(p, "/t/external/file.txt"),
        _ => panic!("expected an external symlink"),
    }
    let broken = PathKind::Symlink { link: "/t/repo/gone".to_string(), dest_exists: false };
    assert!(matches!(classify_target("/t/link", &broken, "/t/repo", &repl), TargetState::BrokenSymlink));
    assert!(matches!(classify_target("/t/link", &link("/t/repository/x"), "/t/repo", &repl), TargetState::SymlinkToExternal(_)));
}

#[test]
fn relative_links_resolve_against_their_directory() {
    assert_eq!(resolve_link("/home/u/.zshrc", "dots/zshrc"), "/home/u/dots/zshrc");
    assert_eq!(resolve_link("/home/u/.zshrc", "/abs/zshrc"), "/abs/zshrc");
}

#[test]
fn test_link_item_creates_new_symlink() {
    let it = item("/t/repo/file.txt", "/t/home/file.txt", Strategy::File);
    let obs = observed(PathKind::File, PathKind::Absent);
    let plan = linker().plan_link(&it, "/t/repo", default_options(), &obs, "", &stamp()).unwrap();
    assert!(matches!(plan.result, LinkResult::Created { entry: ManifestEntry::Symlink }));
    assert_eq!(plan.ops.len(), 2);
    assert!(matches!(plan.ops[0], FsOp::CreateDirAll { ref path } if path == "/t/home"));
    assert!(matches!(plan.ops[1], FsOp::Symlink { ref source, ref target, resolve_source: false }
        if source == "/t/repo/file.txt" && target == "/t/home/file.txt"));
}

#[test]
fn test_link_item_skips_existing_file_without_force() {
    let it = item("/t/repo/file.txt", "/t/file.txt", Strategy::File);
    let obs = observed(PathKind::File, PathKind::File);
    let plan = linker().plan_link(&it, "/t/repo", default_options(), &obs, "", &stamp()).unwrap();
    assert!(matches!(plan.result, LinkResult::Skipped { ref reason } if reason == "file exists (use --force to backup)"));
    assert!(plan.ops.is_empty());
}

#[test]
fn test_link_item_backs_up_existing_file_with_force() {
    let it = item("/t/repo/file.txt", "/t/file.txt", Strategy::File);
    let obs = observed(PathKind::File, PathKind::File);
    let options = LinkOptions { force: true, ..default_options() };
    let plan = linker().plan_link(&it, "/t/repo", options, &obs, "", &stamp()).unwrap();
    match plan.result {
        LinkResult::BackedUp { ref backup_path, entry } => {
            assert_eq!(backup_path, "/t/file.txt.backup.20240101000000");
            assert_eq!(entry, ManifestEntry::Symlink);
        },
        _ => panic!("expected a backup"),
    }
    assert!(matches!(plan.ops[0], FsOp::Rename { ref from, ref to }
        if from == "/t/file.txt" && to == "/t/file.txt.backup.20240101000000"));
    assert!(matches!(plan.ops[2], FsOp::Symlink { ref target, .. } if target == "/t/file.txt"));
}

#[test]
fn backup_needs_valid_suffix() {
    let it = item("/t/repo/file.txt", "/t/file.txt", Strategy::File);
    let obs = observed(PathKind::File, PathKind::Dir);
    let options = LinkOptions { force: true, ..default_options() };
    let r = linker().plan_link(&it, "/t/repo", options, &obs, "", &None);
    assert!(matches!(r, Err(LinkError::BadBackupSuffix)));
}

#[test]
fn test_link_item_replaces_broken_symlink() {
    let it = item("/t/repo/file.txt", "/t/file.txt", Strategy::File);
    let obs = observed(PathKind::File, PathKind::Symlink { link: "/nonexistent".to_string(), dest_exists: false });
    let plan = linker().plan_link(&it, "/t/repo", default_options(), &obs, "", &stamp()).unwrap();
    assert!(matches!(plan.result, LinkResult::Created { .. }));
    assert!(matches!(plan.ops[0], FsOp::RemoveFile { ref path } if path == "/t/file.txt"));
}

#[test]
fn test_link_item_skips_external_symlink() {
    let it = item("/t/repo/file.txt", "/t/link.txt", Strategy::File);
    let obs = observed(PathKind::File, link("/t/external/file.txt"));
    let plan = linker().plan_link(&it, "/t/repo", default_options(), &obs, "", &stamp()).unwrap();
    assert!(matches!(plan.result, LinkResult::Skipped { ref reason } if reason == "external symlink: /t/external/file.txt"));
    assert!(plan.ops.is_empty());
    let unlinked = linker().unlink_item(&it, &link("/t/external/file.txt"), default_options());
    assert!(matches!(unlinked.result, LinkResult::Skipped { .. }));
    assert!(unlinked.ops.is_empty());
}

#[test]
fn broken_source_is_skipped() {
    let it = item("/t/repo/file.txt", "/t/file.txt", Strategy::File);
    let obs = observed(PathKind::Symlink { link: "/gone".to_string(), dest_exists: false }, PathKind::Absent);
    let plan = linker().plan_link(&it, "/t/repo", default_options(), &obs, "", &stamp()).unwrap();
    assert!(matches!(plan.result, LinkResult::Skipped { ref reason } if reason == "source is broken symlink"));
}

#[test]
fn symlinked_source_links_to_its_resolution() {
    let it = item("/t/repo/file.txt", "/t/file.txt", Strategy::File);
    let obs = observed(link("/elsewhere/file.txt"), PathKind::Absent);
    let plan = linker().plan_link(&it, "/t/repo", default_options(), &obs, "", &stamp()).unwrap();
    assert!(matches!(plan.ops[1], FsOp::Symlink { resolve_source: true, .. }));
}

#[test]
fn dry_run_decides_as_a_real_run() {
    let it = item("/t/repo/file.txt", "/t/file.txt", Strategy::File);
    let obs = observed(PathKind::File, PathKind::File);
    let dry = LinkOptions { dry_run: true, force: true, ..default_options() };
    let real = LinkOptions { force: true, ..default_options() };
    let a = linker().plan_link(&it, "/t/repo", dry, &obs, "", &stamp()).unwrap();
    let b = linker().plan_link(&it, "/t/repo", real, &obs, "", &stamp()).unwrap();
    assert!(matches!(a.result, LinkResult::BackedUp { .. }));
    assert!(matches!(b.result, LinkResult::BackedUp { .. }));
    assert!(a.ops.is_empty());
    assert_eq!(b.ops.len(), 3);
}

#[test]
fn copy_strategy_plans() {
    let it = item("/t/repo/file.txt", "/t/file.txt", Strategy::Copy);
    let mut obs = observed(PathKind::File, PathKind::File);
    obs.same_content = true;
    let plan = linker().plan_link(&it, "/t/repo", default_options(), &obs, "", &stamp()).unwrap();
    assert!(matches!(plan.result, LinkResult::AlreadyCorrect { entry: ManifestEntry::Copy }));
    assert!(plan.ops.is_empty());

    let obs = observed(PathKind::File, link("/t/repo/file.txt"));
    let plan = linker().plan_link(&it, "/t/repo", default_options(), &obs, "", &stamp()).unwrap();
    assert!(matches!(plan.result, LinkResult::Created { entry: ManifestEntry::Copy }));
    assert!(matches!(plan.ops[1], FsOp::RemoveFile { .. }));
    assert!(matches!(plan.ops[2], FsOp::CopyFile { ref from, ref to } if from == "/t/repo/file.txt" && to == "/t/file.txt"));

    let mut obs = observed(PathKind::Dir, PathKind::Dir);
    obs.source_is_dir = true;
    let plan = linker().plan_link(&it, "/t/repo", default_options(), &obs, "", &stamp()).unwrap();
    assert!(matches!(plan.ops[1], FsOp::RemoveDirAll { .. }));
    assert!(matches!(plan.ops[2], FsOp::CopyDir { .. }));
}

#[test]
fn template_item_renders_and_compares() {
    let mut it = item("/t/repo/cfg.tmpl", "/t/cfg", Strategy::File);
    it.is_template = true;
    let mut vars = VarMap::new();
    vars.insert("name".to_string(), "World".to_string());
    let mut obs = observed(PathKind::File, PathKind::Absent);
    obs.source_text = "Hello, {{name}}!".to_string();
    let plan = linker().link_item(&it, &vars, "/t/repo", default_options(), &obs).unwrap();
    assert!(matches!(plan.result, LinkResult::Created { entry: ManifestEntry::Rendered }));
    assert!(matches!(plan.ops[1], FsOp::WriteFile { ref path, ref contents } if path == "/t/cfg" && contents == "Hello, World!"));

    obs.target = PathKind::File;
    obs.target_text = Some("Hello, World!".to_string());
    let plan = linker().link_item(&it, &vars, "/t/repo", default_options(), &obs).unwrap();
    assert!(matches!(plan.result, LinkResult::AlreadyCorrect { entry: ManifestEntry::Rendered }));
    assert!(plan.ops.is_empty());
}

#[test]
fn template_that_does_not_render_is_an_error() {
    let mut it = item("/t/repo/cfg.tmpl", "/t/cfg", Strategy::File);
    it.is_template = true;
    let mut obs = observed(PathKind::File, PathKind::Absent);
    obs.source_text = "{{#if x}}unclosed".to_string();
    let r = linker().link_item(&it, &VarMap::new(), "/t/repo", default_options(), &obs);
    assert!(matches!(r, Err(LinkError::Render { .. })));
}

#[test]
fn test_unlink_item_removes_symlink() {
    let it = item("/t/source.txt", "/t/target.txt", Strategy::File);
    let plan = linker().unlink_item(&it, &link("/t/source.txt"), default_options());
    assert!(matches!(plan.result, LinkResult::Unlinked));
    assert!(matches!(plan.ops[0], FsOp::RemoveFile { ref path } if path == "/t/target.txt"));
}

#[test]
fn test_unlink_item_skips_nonexistent() {
    let it = item("/t/source.txt", "/t/nonexistent.txt", Strategy::File);
    let plan = linker().unlink_item(&it, &PathKind::Absent, default_options());
    assert!(matches!(plan.result, LinkResult::Skipped { ref reason } if reason == "does not exist"));
}

#[test]
fn test_unlink_item_skips_wrong_symlink() {
    let it = item("/t/source.txt", "/t/target.txt", Strategy::File);
    let plan = linker().unlink_item(&it, &link("/t/other.txt"), default_options());
    assert!(matches!(plan.result, LinkResult::Skipped { ref reason } if reason == "symlink points elsewhere"));
    assert!(plan.ops.is_empty());
}

#[test]
fn unlink_keeps_unrelated_files() {
    let it = item("/t/source.txt", "/t/target.txt", Strategy::File);
    let plan = linker().unlink_item(&it, &PathKind::File, default_options());
    assert!(matches!(plan.result, LinkResult::Skipped { ref reason } if reason == "not a symlink"));
    let copy = item("/t/source", "/t/target", Strategy::Copy);
    let plan = linker().unlink_item(&copy, &PathKind::Dir, default_options());
    assert!(matches!(plan.ops[0], FsOp::RemoveDirAll { .. }));
}

#[test]
fn manifest_copy_over_symlink_is_skipped() {
    let plan = linker().unlink_from_manifest("/t/x", &link("/t/repo/x"), ManifestEntry::Copy, default_options());
    assert!(matches!(plan.result, LinkResult::Skipped { .. }));
    assert!(plan.ops.is_empty());
}

#[test]
fn manifest_entries_guard_removal() {
    let l = linker();
    let o = default_options();
    assert!(matches!(l.unlink_from_manifest("/t/x", &PathKind::Absent, ManifestEntry::Symlink, o).result, LinkResult::Skipped { .. }));
    assert!(matches!(l.unlink_from_manifest("/t/x", &PathKind::File, ManifestEntry::Symlink, o).result, LinkResult::Skipped { .. }));
    assert!(matches!(l.unlink_from_manifest("/t/x", &link("/a"), ManifestEntry::Symlink, o).ops[0], FsOp::RemoveFile { .. }));
    assert!(matches!(l.unlink_from_manifest("/t/x", &PathKind::Dir, ManifestEntry::Copy, o).ops[0], FsOp::RemoveDirAll { .. }));
    assert!(matches!(l.unlink_from_manifest("/t/x", &PathKind::File, ManifestEntry::Rendered, o).ops[0], FsOp::RemoveFile { .. }));
    assert!(matches!(l.unlink_from_manifest("/t/x", &PathKind::Dir, ManifestEntry::Rendered, o).result, LinkResult::Skipped { .. }));
    let dry = LinkOptions { dry_run: true, ..o };
    let p = l.unlink_from_manifest("/t/x", &PathKind::File, ManifestEntry::Copy, dry);
    assert!(matches!(p.result, LinkResult::Unlinked));
    assert!(p.ops.is_empty());
}

#[test]
fn test_backup_path_format() {
    let backup = linker().backup_path("/home/user/.zshrc").unwrap();
    assert!(backup.starts_with("/home/user/.zshrc.backup."));
    assert!(backup.len() > "/home/user/.zshrc.backup.".len());
}

#[test]
fn status_after_link_is_linked() {
    let it = item("/t/repo/file.txt", "/t/home/file.txt", Strategy::File);
    assert!(matches!(check_item_status(&it, &link("/t/repo/file.txt"), "/t/repo"), ItemStatus::Linked));
    assert!(matches!(check_item_status(&it, &PathKind::Absent, "/t/repo"), ItemStatus::Missing));
    assert!(matches!(check_item_status(&it, &PathKind::File, "/t/repo"), ItemStatus::Conflict));
    match check_item_status(&it, &link("/x/file.txt"), "/t/repo") {
        ItemStatus::External(p) => assert_eq!(p, "/x/file.txt"),
        _ => panic!("expected external"),
    }
    let mut tpl = item("/t/repo/a.tmpl", "/t/home/a", Strategy::File);
    tpl.is_template = true;
    assert!(matches!(check_item_status(&tpl, &PathKind::File, "/t/repo"), ItemStatus::Rendered));
    assert!(matches!(check_item_status(&tpl, &PathKind::Absent, "/t/repo"), ItemStatus::Missing));
}

#[test]
fn status_counts_total() {
    let mut s = RepoStatus::new();
    s.record(&ItemStatus::Linked);
    s.record(&ItemStatus::Missing);
    s.record(&ItemStatus::External("/x".to_string()));
    assert_eq!(s.total(), 3);
    assert_eq!(s.linked, 1);
    assert_eq!(s.missing, 1);
    assert_eq!(s.external, 1);
}

#[test]
fn manifest_keeps_order_and_replaces() {
    let mut m = Manifest::new();
    assert!(m.is_empty());
    m.insert(".zshrc".to_string(), ManifestEntry::Symlink);
    m.insert(".gitconfig".to_string(), ManifestEntry::Rendered);
    m.insert(".zshrc".to_string(), ManifestEntry::Copy);
    assert_eq!(m.len(), 2);
    assert_eq!(m.get(".zshrc"), Some(ManifestEntry::Copy));
    assert_eq!(m.get(".vimrc"), None);
    assert_eq!(m.entry_at(1).0, ".gitconfig");
    assert_eq!(ManifestEntry::from_tag(ManifestEntry::Rendered.tag()), Some(ManifestEntry::Rendered));
    assert_eq!(ManifestEntry::from_tag("other"), None);
}

fn repo_with_import() -> Repo {
    let config = RepoConfig {
        target: "/home/u".to_string(),
        vars: VarMap::new(),
        defaults: RepoDefaults { strategy: Strategy::File },
        strategies: vec![(".config/nvim".to_string(), Strategy::Directory)],
        ignore: IgnoreConfig { paths: vec![] },
        imports: vec![],
    };
    let mut repo = Repo::from_config("/r/dots", config).unwrap();
    repo.imports.push(Import {
        name: "shared".to_string(),
        source: ImportSource::Local("/s".to_string()),
        local_path: "/s".to_string(),
        paths: vec!["commands/**".to_string(), ".zshrc".to_string()],
        remap: vec![PathRemap { from: "commands".to_string(), to: ".tools/commands".to_string() }],
    });
    repo
}

fn entry(rel: &str, is_dir: bool) -> WalkEntry {
    WalkEntry { relative_path: rel.to_string(), is_dir }
}

#[test]
fn items_of_native_tree() {
    let repo = repo_with_import();
    assert_eq!(repo.name, "dots");
    let native = vec![
        entry(".git", true),
        entry(".git/config", false),
        entry(".zshrc", false),
        entry(".config", true),
        entry(".config/nvim", true),
        entry(".config/nvim/init.lua", false),
        entry(".gitconfig.tmpl", false),
        entry("homie.toml", false),
    ];
    let items = repo.collect_items_from("/r/dots", &native);
    let rels: Vec<&str> = items.iter().map(|i| i.relative_path.as_str()).collect();
    assert_eq!(rels, vec![".zshrc", ".config/nvim", ".gitconfig.tmpl"]);
    assert_eq!(items[1].strategy, Strategy::Directory);
    assert_eq!(items[1].source, "/r/dots/.config/nvim");
    assert!(items[2].is_template);
    assert_eq!(items[2].target, "/home/u/.gitconfig");
    let all = repo.items(&native, &vec![None]);
    let rels: Vec<&str> = all.iter().map(|i| i.relative_path.as_str()).collect();
    assert_eq!(rels, vec![".config/nvim", ".gitconfig.tmpl", ".zshrc"]);
}

#[test]
fn imported_items_are_filtered_remapped_and_deduplicated() {
    let repo = repo_with_import();
    let native = vec![entry(".zshrc", false)];
    let imported = vec![Some(vec![
        entry(".zshrc", false),
        entry("commands", true),
        entry("commands/a.md", false),
        entry("hooks.sh", false),
    ])];
    let items = repo.items(&native, &imported);
    let rels: Vec<&str> = items.iter().map(|i| i.relative_path.as_str()).collect();
    assert_eq!(rels, vec![".zshrc", ".tools/commands/a.md"]);
    assert_eq!(items[0].source, "/r/dots/.zshrc");
    assert_eq!(items[1].source, "/s/commands/a.md");
    assert_eq!(items[1].target, "/home/u/.tools/commands/a.md");
    assert_eq!(repo.items(&native, &vec![None]).len(), 1);
}

#[test]
fn results_record_manifest_entries() {
    assert_eq!(LinkResult::Created { entry: ManifestEntry::Copy }.manifest_entry(), Some(ManifestEntry::Copy));
    assert_eq!(
        LinkResult::BackedUp { backup_path: "/b".to_string(), entry: ManifestEntry::Symlink }.manifest_entry(),
        Some(ManifestEntry::Symlink)
    );
    assert_eq!(LinkResult::Skipped { reason: "x".to_string() }.manifest_entry(), None);
    assert_eq!(LinkResult::Unlinked.manifest_entry(), None);
}

#[test]
fn differences_between_repo_and_target() {
    let it = item("/t/repo/file.txt", "/t/file.txt", Strategy::File);
    assert_eq!(item_difference(&it, &PathKind::File, true, true, false), Some(Difference::Modified));
    assert_eq!(item_difference(&it, &PathKind::File, true, true, true), None);
    assert_eq!(item_difference(&it, &PathKind::Dir, true, false, false), Some(Difference::Replaced));
    assert_eq!(item_difference(&it, &link("/t/repo/file.txt"), true, true, false), None);
    assert_eq!(item_difference(&it, &PathKind::Absent, true, false, false), None);
}

#[test]
fn paths_and_targets_at_the_edges() {
    assert_eq!(compute_target("", "a.tmpl", true), "a");
    assert_eq!(compute_target("/home/u/", ".vimrc", false), "/home/u/.vimrc");
    assert_eq!(compute_target("/home/u", "/abs/x", false), "/abs/x");
    assert_eq!(compute_target("/home/u", ".tmpl", true), "/home/u/.tmpl");
}

#[test]
fn classifying_twice_gives_the_same_state() {
    let repl = vec!["/t/replaceable".to_string()];
    let kind = link("/t/elsewhere/f");
    let a = classify_target("/t/link", &kind, "/t/repo", &repl);
    let b = classify_target("/t/link", &kind, "/t/repo", &repl);
    match (a, b) {
        (TargetState::SymlinkToExternal(x), TargetState::SymlinkToExternal(y)) => assert_eq!(x, y),
        _ => panic!("expected the same external state"),
    }
}

#[test]
fn link_then_unlink_removes_the_link() {
    let it = item("/t/repo/file.txt", "/t/home/file.txt", Strategy::File);
    let obs = observed(PathKind::File, PathKind::Absent);
    let plan = linker().plan_link(&it, "/t/repo", default_options(), &obs, "", &stamp()).unwrap();
    let created = match &plan.ops[1] {
        FsOp::Symlink { source, .. } => source.clone(),
        _ => panic!("expected a symlink"),
    };
    let after = PathKind::Symlink { link: created, dest_exists: true };
    let undo = linker().unlink_item(&it, &after, default_options());
    assert!(matches!(undo.result, LinkResult::Unlinked));
    assert_eq!(undo.ops.len(), 1);
    assert!(matches!(undo.ops[0], FsOp::RemoveFile { ref path } if path == "/t/home/file.txt"));
}

#[test]
fn native_items_are_sorted_and_unique() {
    let repo = repo_with_import();
    let native = vec![entry("b", false), entry("a-c", false), entry("a", true), entry("a/x", false), entry("b", false)];
    let items = repo.items(&native, &vec![None]);
    let rels: Vec<&str> = items.iter().map(|i| i.relative_path.as_str()).collect();
    assert_eq!(rels, vec!["a-c", "a/x", "b"]);
}

#[test]
fn manifest_records_link_results() {
    let mut m = Manifest::new();
    m.record("a".to_string(), &LinkResult::Created { entry: ManifestEntry::Symlink });
    m.record("b".to_string(), &LinkResult::Skipped { reason: "x".to_string() });
    m.record("c".to_string(), &LinkResult::AlreadyCorrect { entry: ManifestEntry::Rendered });
    assert_eq!(m.len(), 2);
    assert_eq!(m.get("a"), Some(ManifestEntry::Symlink));
    assert_eq!(m.get("b"), None);
    assert_eq!(m.get("c"), Some(ManifestEntry::Rendered));
}

#[test]
fn forced_link_through_link_item_backs_up() {
    let it = item("/t/repo/file.txt", "/t/file.txt", Strategy::File);
    let obs = observed(PathKind::File, PathKind::File);
    let options = LinkOptions { force: true, ..default_options() };
    let plan = linker().link_item(&it, &VarMap::new(), "/t/repo", options, &obs).unwrap();
    match plan.result {
        LinkResult::BackedUp { ref backup_path, .. } => assert!(backup_path.starts_with("/t/file.txt.backup.")),
        _ => panic!("expected a backup"),
    }
}
