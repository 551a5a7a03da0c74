use homie::config::{
    default_backup_suffix, default_import_paths, GlobalConfig, IgnoreConfig, ImportConfig, PathRemap, RepoConfig,
    RepoDefaults,
};
use homie::import::{
    derive_name_from_url, extract_repo_name, git_invocations, is_git_url, resolve_import_with, FetchStep, Import,
    ImportSource, NameError,
};
use homie::strategy::Strategy;
use homie::vars::VarMap;

fn repo_config(strategies: Vec<(String, Strategy)>, ignore: Vec<String>) -> RepoConfig {
    RepoConfig {
        target: "~".to_string(),
        vars: VarMap::new(),
        defaults: RepoDefaults::default(),
        strategies,
        ignore: IgnoreConfig { paths: ignore },
        imports: Vec::new(),
    }
}

fn import_with(paths: Vec<String>, remap: Vec<PathRemap>) -> Import {
    Import {
        name: "test".to_string(),
        source: ImportSource::Local("/tmp".to_string()),
        local_path: "/tmp".to_string(),
        paths,
        remap,
    }
}

#[test]
fn test_default_global_config() {
    let config = GlobalConfig::default();
    assert!(config.vars.is_empty());
    assert_eq!(config.settings.backup_suffix, ".backup.%Y%m%d%H%M%S");
}

#[test]
fn default_suffix_and_import_paths() {
    assert_eq!(default_backup_suffix(), ".backup.%Y%m%d%H%M%S");
    assert_eq!(default_import_paths(), vec!["*".to_string()]);
}

#[test]
fn test_default_ignores() {
    let config = repo_config(Vec::new(), Vec::new());
    assert!(config.is_ignored("homie.toml"));
    assert!(config.is_ignored(".git"));
    assert!(config.is_ignored("README.md"));
    assert!(config.is_ignored("LICENSE"));
    assert!(!config.is_ignored(".zshrc"));
}

#[test]
fn user_ignores_and_nested_defaults() {
    let config = repo_config(Vec::new(), vec!["*.swp".to_string()]);
    assert!(config.is_ignored("test.swp"));
    assert!(config.is_ignored(".git/config"));
    assert!(config.is_ignored("sub/.DS_Store"));
    assert!(!config.is_ignored(".vimrc"));
}

#[test]
fn strategy_first_override_wins() {
    let config = repo_config(
        vec![
            (".config".to_string(), Strategy::Contents),
            (".config/nvim".to_string(), Strategy::Directory),
            (".config/nvim/**".to_string(), Strategy::Directory),
            (".config/*".to_string(), Strategy::Copy),
            (".local/bin".to_string(), Strategy::Contents),
        ],
        Vec::new(),
    );
    assert_eq!(config.strategy_for_path(".config"), Strategy::Contents);
    assert_eq!(config.strategy_for_path(".config/nvim"), Strategy::Directory);
    assert_eq!(config.strategy_for_path(".config/nvim/init.lua"), Strategy::Directory);
    assert_eq!(config.strategy_for_path(".config/git"), Strategy::Copy);
    assert_eq!(config.strategy_for_path(".local/bin"), Strategy::Contents);
    assert_eq!(config.strategy_for_path(".local/binaries"), Strategy::File);
    assert_eq!(config.strategy_for_path(".configuration"), Strategy::File);
    assert_eq!(config.strategy_for_path(".zshrc"), Strategy::File);
}

#[test]
fn ignored_directories_cover_their_contents() {
    let config = repo_config(Vec::new(), vec!["scratch".to_string()]);
    assert!(config.is_ignored("scratch"));
    assert!(config.is_ignored("scratch/notes.txt"));
    assert!(!config.is_ignored("scratchpad"));
}

#[test]
fn strategy_names_round_trip() {
    for s in [Strategy::File, Strategy::Directory, Strategy::Contents, Strategy::Copy] {
        assert_eq!(Strategy::from_name(s.name()), Some(s));
    }
    assert_eq!(Strategy::from_name("link"), None);
    assert!(Strategy::Copy.is_copy());
    assert!(!Strategy::Directory.is_copy());
    assert!(Strategy::Directory.is_directory_unit());
    assert!(Strategy::Copy.is_directory_unit());
    assert!(!Strategy::Contents.is_directory_unit());
    assert!(!Strategy::File.is_directory_unit());
}

#[test]
fn test_is_git_url() {
    assert!(is_git_url("git@github.com:user/repo.git"));
    assert!(is_git_url("https://github.com/user/repo.git"));
    assert!(is_git_url("https://github.com/user/repo"));
    assert!(is_git_url("https://gitlab.com/user/repo"));
    assert!(!is_git_url("~/dotfiles"));
    assert!(!is_git_url("/home/user/dotfiles"));
}

#[test]
fn git_url_by_scheme_and_suffix() {
    assert!(is_git_url("https://bitbucket.org/u/r"));
    assert!(is_git_url("ssh://example.com/git/r"));
    assert!(is_git_url("/srv/repos/r.git"));
    assert!(!is_git_url("https://example.com/r"));
}

#[test]
fn test_derive_name_from_url() {
    assert_eq!(derive_name_from_url("git@github.com:user/dotfiles.git"), "dotfiles");
    assert_eq!(derive_name_from_url("https://github.com/user/my-configs.git"), "my-configs");
    assert_eq!(derive_name_from_url("https://github.com/user/repo"), "repo");
}

#[test]
fn name_from_url_trims_slashes_and_suffixes() {
    assert_eq!(derive_name_from_url("https://github.com/user/repo.git/"), "repo");
    assert_eq!(derive_name_from_url("https://github.com/user/repo.git.git"), "repo");
    assert_eq!(derive_name_from_url("repo"), "repo");
}

#[test]
fn extract_repo_name_rejects_empty() {
    assert_eq!(extract_repo_name("https://github.com/user/dots.git"), Ok("dots".to_string()));
    assert_eq!(extract_repo_name("https://github.com/user/.git"), Err(NameError::Empty));
}

#[test]
fn test_includes_path_wildcard() {
    let import = import_with(vec!["*".to_string()], vec![]);
    assert!(import.includes_path(".zshrc"));
    assert!(import.includes_path(".config/nvim/init.lua"));
}

#[test]
fn test_includes_path_exact() {
    let import = import_with(vec![".zshrc".to_string(), ".config/nvim".to_string()], vec![]);
    assert!(import.includes_path(".zshrc"));
    assert!(import.includes_path(".config/nvim"));
    assert!(import.includes_path(".config/nvim/init.lua"));
    assert!(!import.includes_path(".bashrc"));
    assert!(!import.includes_path(".config/git/config"));
}

#[test]
fn test_includes_path_glob() {
    let import = import_with(vec![".config/*".to_string()], vec![]);
    assert!(import.includes_path(".config/nvim"));
    assert!(import.includes_path(".config/git"));
    assert!(!import.includes_path(".zshrc"));
}

#[test]
fn test_remap_path() {
    let import = import_with(
        vec!["*".to_string()],
        vec![PathRemap { from: "commands".to_string(), to: ".tools/commands".to_string() }],
    );
    assert_eq!(import.remap_path("commands/foo.md"), ".tools/commands/foo.md");
    assert_eq!(import.remap_path("commands/sub/bar.md"), ".tools/commands/sub/bar.md");
    assert_eq!(import.remap_path("hooks/test.sh"), "hooks/test.sh");
}

#[test]
fn remap_needs_whole_components() {
    let import = import_with(
        vec!["*".to_string()],
        vec![
            PathRemap { from: "cmd".to_string(), to: "first".to_string() },
            PathRemap { from: "commands".to_string(), to: "second".to_string() },
        ],
    );
    assert_eq!(import.remap_path("commands/x"), "second/x");
    assert_eq!(import.remap_path("cmd/x"), "first/x");
}

#[test]
fn resolve_git_and_local_imports() {
    let git = ImportConfig {
        name: None,
        source: "https://github.com/user/shared.git".to_string(),
        git_ref: Some("main".to_string()),
        paths: vec!["commands/**".to_string()],
        remap: vec![],
    };
    let imp = resolve_import_with(&git, "/repos/mine", "https://github.com/user/shared.git");
    assert_eq!(imp.name, "shared");
    assert_eq!(imp.local_path, "/repos/mine/.homie/imports/shared");
    assert!(matches!(imp.source, ImportSource::Git { ref url, git_ref: Some(ref g) } if url == "https://github.com/user/shared.git" && g == "main"));

    let local = ImportConfig {
        name: None,
        source: "~/work/dots".to_string(),
        git_ref: None,
        paths: vec!["*".to_string()],
        remap: vec![],
    };
    let imp = resolve_import_with(&local, "/repos/mine", "/home/me/work/dots");
    assert_eq!(imp.name, "dots");
    assert_eq!(imp.local_path, "/home/me/work/dots");
    assert!(matches!(imp.source, ImportSource::Local(ref p) if p == "/home/me/work/dots"));
}

#[test]
fn fetch_steps_and_git_arguments() {
    let imp = Import {
        name: "shared".to_string(),
        source: ImportSource::Git { url: "https://github.com/u/shared.git".to_string(), git_ref: None },
        local_path: "/r/.homie/imports/shared".to_string(),
        paths: vec![],
        remap: vec![],
    };
    let step = imp.ensure_available("/r", false);
    assert!(matches!(step, FetchStep::Clone { ref dest, .. } if dest == "/r/.homie/imports/shared"));
    assert_eq!(
        git_invocations(&step),
        vec![vec!["clone", "--depth", "1", "https://github.com/u/shared.git", "/r/.homie/imports/shared"]]
    );
    let pull = imp.ensure_available("/r", true);
    assert_eq!(git_invocations(&pull), vec![vec!["pull", "--ff-only"]]);
    let pinned = FetchStep::Pull { dir: "/d".to_string(), git_ref: Some("v1".to_string()) };
    assert_eq!(git_invocations(&pinned), vec![vec!["fetch", "origin", "v1"], vec!["checkout", "v1"]]);

    let local = import_with(vec![], vec![]);
    assert!(matches!(local.ensure_available("/r", true), FetchStep::Ready));
    assert!(matches!(local.ensure_available("/r", false), FetchStep::MissingSource { ref path } if path == "/tmp"));
}

#[test]
fn target_with_tilde_is_expanded() {
    let mut config = repo_config(Vec::new(), Vec::new());
    config.target = "~/dots".to_string();
    let t = config.expanded_target();
    assert!(t.ends_with("/dots"));
    assert!(!t.starts_with('~'));
    config.target = "/abs/dir".to_string();
    assert_eq!(config.expanded_target(), "/abs/dir");
    config.target = "~other/dir".to_string();
    assert_eq!(config.expanded_target(), "~other/dir");
}

#[test]
fn empty_inputs() {
    assert_eq!(derive_name_from_url(""), "");
    assert!(!is_git_url(""));
    let import = import_with(vec![], vec![]);
    assert!(!import.includes_path(".zshrc"));
    assert_eq!(import.remap_path(""), "");
}
