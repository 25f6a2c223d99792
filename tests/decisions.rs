use git_sparta::attributes::AttrState;
use git_sparta::cmd::{git, CommandOutput};
use git_sparta::config::{
    apply_overrides, env_overrides, merge_local_override, submodule_path_relative, Config, ConfigError, Overrides,
    SectionValues, SubmoduleConfig,
};
use git_sparta::generate::{attribute_rows, preview_needed, tag_from_outcome, tag_to_use, GenerateError};
use git_sparta::lfs::{self, LfsStage};
use git_sparta::picker::{
    attribute_text, build_entries, file_text, AttributeRow, FileRow, SearchData, SearchOutcome, SearchSelection,
};
use git_sparta::scan::{DiscoveredModule, EntryKind, IndexEntry, RepoScan};
use git_sparta::searcher;
use git_sparta::setup::{
    check_pattern_source, generate_sparse_patterns, gitfile_for, gitlink_commit, next_step, SetupError, SetupStep,
};
use git_sparta::sparse;
use git_sparta::submodule::{
    add_gitlink, add_remote_if_missing, alternates_update, check_gitlink_exists, fetch, gitlink_sha_from_stage,
    keep_discovered, path_to_unix_string, replace_text, update_refs, worktree_value,
};
use git_sparta::teardown::{modules_path, parent_text, prune_empty_parents};
use git_sparta::text::{decimal_text, split_tokens, trim_text};
use git_sparta::attributes::TagCounts;
use git_sparta::scan::leftover_submodules;

fn strings(items: &[&str]) -> Vec<String> {
    items.iter().map(|s| s.to_string()).collect()
}

fn output(success: bool, stdout: &str, stderr: &str) -> CommandOutput {
    CommandOutput { success, stdout: stdout.to_string(), stderr: stderr.to_string() }
}

fn config(mirror: Option<&str>) -> Config {
    Config {
        submodule_name: "lib".to_string(),
        submodule_path: "/work/vendor/lib".to_string(),
        submodule_path_relative: "vendor/lib".to_string(),
        submodule_url: "https://example.com/lib.git".to_string(),
        submodule_branch: "main".to_string(),
        project_tag: "app".to_string(),
        shared_mirror_path: mirror.map(str::to_string),
        config_file: "/work/sub.json".to_string(),
        work_repo: "/work".to_string(),
    }
}

#[test]
fn command_line_puts_repository_options_first() {
    let g = git().work_tree("/wt").git_dir("/gd").arg("status").args(&strings(&["--short", "-b"]));
    assert_eq!(g.command_line(), strings(&["--git-dir", "/gd", "--work-tree", "/wt", "status", "--short", "-b"]));
    assert_eq!(g.description(), "status --short -b");
    assert_eq!(git().cwd("/x").cwd, Some("/x".to_string()));
}

#[test]
fn command_outcomes_are_interpreted() {
    let g = git().arg("rev-parse").arg("HEAD");
    assert_eq!(g.stdout(&output(true, "  abc123\n", "")), Ok("abc123".to_string()));
    assert!(g.run(&output(true, "", "")).is_ok());
    let failure = g.run(&output(false, "", " fatal: bad\n")).unwrap_err();
    assert_eq!(failure.command, "rev-parse HEAD");
    assert_eq!(failure.stderr, "fatal: bad");
    assert!(g.ok(&output(true, "", "")));
    assert!(!g.ok(&output(false, "", "")));
}

#[test]
fn builders_state_their_arguments() {
    let g = add_gitlink("/repo", "vendor/lib", "abc");
    assert_eq!(g.cwd, Some("/repo".to_string()));
    assert_eq!(g.args, strings(&["update-index", "--add", "--cacheinfo", "160000", "abc", "vendor/lib"]));
    let f = fetch("/m", "origin", "main", Some(1));
    assert_eq!(f.command_line(), strings(&["--git-dir", "/m", "fetch", "--depth=1", "origin", "main"]));
    let f = fetch("/m", "origin", "main", Some(250));
    assert_eq!(f.args, strings(&["fetch", "--depth=250", "origin", "main"]));
    assert_eq!(fetch("/m", "origin", "main", None).args, strings(&["fetch", "origin", "main"]));
    let (head, branch, symbolic) = update_refs("/m", "abc", "main");
    assert_eq!(head.args, strings(&["update-ref", "HEAD", "abc"]));
    assert_eq!(branch.args, strings(&["update-ref", "refs/heads/main", "abc"]));
    assert_eq!(symbolic.args, strings(&["symbolic-ref", "HEAD", "refs/heads/main"]));
}

#[test]
fn second_setup_pass_adds_no_remote() {
    assert!(add_remote_if_missing("/m", "origin", "U", true).is_none());
    let add = add_remote_if_missing("/m", "origin", "U", false).unwrap();
    assert_eq!(add.args, strings(&["remote", "add", "origin", "U"]));
}

#[test]
fn metadata_sync_is_idempotent() {
    let sub = SubmoduleConfig::new("lib");
    let empty = SectionValues { path: None, url: None, branch: None };
    assert!(sub.ensure_gitmodules(&empty, "vendor/lib", "U", "main"));
    let written = SectionValues {
        path: Some("vendor/lib".to_string()),
        url: Some("U".to_string()),
        branch: Some("main".to_string()),
    };
    assert!(!sub.ensure_gitmodules(&written, "vendor/lib", "U", "main"));
    assert!(!sub.ensure_local_config(&written, "U", "main"));
    assert!(sub.ensure_local_config(&written, "V", "main"));
    assert!(sub.remove_from_gitmodules(true, true));
    assert!(!sub.remove_from_gitmodules(false, true));
    assert!(!sub.remove_from_local_config(true, false));
}

#[test]
fn gitlink_check_finds_only_commit_entries() {
    let scan = RepoScan {
        entries: vec![
            IndexEntry { path: "vendor/lib".to_string(), state: AttrState::Unspecified, kind: EntryKind::Gitlink(None) },
            IndexEntry { path: "README".to_string(), state: AttrState::Unspecified, kind: EntryKind::File },
        ],
        discovered: vec![],
    };
    assert!(check_gitlink_exists(&scan, "vendor/lib"));
    assert!(!check_gitlink_exists(&scan, "README"));
    assert!(!check_gitlink_exists(&scan, "vendor"));
}

#[test]
fn module_config_worktree_is_read() {
    assert_eq!(worktree_value("[core]\n\tbare = false\n\tworktree = ../../../vendor/lib\n"), Some("../../../vendor/lib".to_string()));
    assert_eq!(worktree_value("worktree=x\r\n"), Some("x".to_string()));
    assert_eq!(worktree_value("worktrees = y\nworktree =   \n"), None);
    assert_eq!(worktree_value("[core]\n"), None);
}

#[test]
fn nested_module_directories_are_recognized() {
    assert!(keep_discovered("vendor/lib", "vendor/lib"));
    assert!(!keep_discovered("a/modules/b", "a/b"));
    assert!(keep_discovered("a/modules/b", "c"));
    assert!(!keep_discovered("", "a"));
    assert_eq!(replace_text("x/modules/y/modules/z", "/modules/", "/"), "x/y/z");
}

#[test]
fn stage_output_gives_the_gitlink_commit() {
    assert_eq!(gitlink_sha_from_stage("160000 abc123 0\tvendor/lib"), Some("abc123".to_string()));
    assert_eq!(gitlink_sha_from_stage(""), None);
    assert_eq!(gitlink_commit(""), Err(SetupError::NoGitlink));
    assert_eq!(gitlink_commit("160000 f00 0\tx\n100644 b4r 0\ty"), Ok("f00".to_string()));
}

#[test]
fn alternates_are_appended_once() {
    assert_eq!(alternates_update("", "/mirror/.git/objects"), Some("/mirror/.git/objects\n".to_string()));
    assert_eq!(alternates_update("/a\n", "/b"), Some("/a\n/b\n".to_string()));
    assert_eq!(alternates_update("/a\n/b\n", "/b"), None);
    assert_eq!(alternates_update("/b\r\n", "/b"), None);
    assert_eq!(alternates_update("/b", "/b"), None);
}

#[test]
fn components_are_joined_with_slashes() {
    assert_eq!(path_to_unix_string(&strings(&["vendor", "lib"])), "vendor/lib");
    assert_eq!(path_to_unix_string(&Vec::new()), "");
}

#[test]
fn leftover_modules_skip_gitlinks_and_repeats() {
    let modules = vec![
        DiscoveredModule { path: "a".to_string(), repo: Some(1) },
        DiscoveredModule { path: "b".to_string(), repo: Some(2) },
        DiscoveredModule { path: "b".to_string(), repo: Some(2) },
        DiscoveredModule { path: "c".to_string(), repo: None },
    ];
    assert_eq!(leftover_submodules(&strings(&["a"]), &modules), vec![1]);
}

#[test]
fn sparse_file_and_checkout() {
    let (enable, content) = sparse::configure("/m", &strings(&["a", "b/c"]));
    assert_eq!(enable.args, strings(&["config", "core.sparseCheckout", "true"]));
    assert_eq!(content, "a\nb/c\n");
    let (read_tree, checkout) = sparse::checkout("/m", "/wt");
    assert_eq!(read_tree.command_line(), strings(&["--git-dir", "/m", "--work-tree", "/wt", "read-tree", "-mu", "HEAD"]));
    assert_eq!(checkout.args, strings(&["checkout-index", "--all", "--force"]));
}

#[test]
fn lfs_detection_and_failures() {
    assert!(lfs::is_enabled(Some("*.bin filter=lfs diff=lfs merge=lfs -text\n")));
    assert!(!lfs::is_enabled(Some("*.txt text\n")));
    assert!(!lfs::is_enabled(None));
    assert_eq!(lfs::lfs_next(LfsStage::Install, false), (LfsStage::Done, true));
    assert_eq!(lfs::lfs_next(LfsStage::Install, true), (LfsStage::Fetch, false));
    assert_eq!(lfs::lfs_next(LfsStage::Fetch, false), (LfsStage::Checkout, true));
    assert_eq!(lfs::lfs_next(LfsStage::Checkout, false), (LfsStage::Done, true));
    assert_eq!(lfs::install("/m", "/wt").args, strings(&["lfs", "install", "--local"]));
}

#[test]
fn overrides_take_precedence_in_order() {
    let mut c = config(None);
    let mut local = Overrides { submodule_url: None, shared_mirror_path: None };
    merge_local_override(&mut local, Overrides { submodule_url: Some("L1".to_string()), shared_mirror_path: None });
    merge_local_override(&mut local, Overrides { submodule_url: Some("L2".to_string()), shared_mirror_path: Some("/m".to_string()) });
    assert_eq!(local.submodule_url, Some("L1".to_string()));
    apply_overrides(&mut c, &local);
    assert_eq!(c.submodule_url, "L1");
    assert_eq!(c.shared_mirror_path, Some("/m".to_string()));
    let env = env_overrides(Some("E".to_string()), Some(String::new()));
    assert_eq!(env.shared_mirror_path, None);
    apply_overrides(&mut c, &env);
    assert_eq!(c.submodule_url, "E");
    assert_eq!(c.shared_mirror_path, Some("/m".to_string()));
    assert_eq!(c.submodule_branch, "main");
}

#[test]
fn relative_paths_come_from_pathdiff() {
    assert_eq!(submodule_path_relative("/work/vendor/lib", "/work"), Ok("vendor/lib".to_string()));
    assert_eq!(submodule_path_relative("vendor/lib", "/work"), Err(ConfigError::UnrelatablePath));
    assert_eq!(gitfile_for("/work/.git/modules/vendor/lib", "/work/vendor/lib"), Ok("gitdir: ../../.git/modules/vendor/lib\n".to_string()));
}

#[test]
fn pattern_source_errors() {
    assert_eq!(check_pattern_source(&config(Some("/mirror")), false), Err(SetupError::MissingMirrorRepository));
    assert_eq!(check_pattern_source(&config(None), false), Err(SetupError::MissingRepository));
    assert_eq!(check_pattern_source(&config(None), true), Ok(()));
}

#[test]
fn setup_patterns_are_sorted_or_missing() {
    let scan = RepoScan {
        entries: vec![
            IndexEntry { path: "z".to_string(), state: AttrState::Value("app".to_string()), kind: EntryKind::File },
            IndexEntry { path: "a".to_string(), state: AttrState::Enabled, kind: EntryKind::File },
            IndexEntry { path: "m".to_string(), state: AttrState::Value("docs".to_string()), kind: EntryKind::File },
        ],
        discovered: vec![],
    };
    assert_eq!(generate_sparse_patterns(&scan, "app"), Ok(strings(&["a", "z"])));
    let none = RepoScan { entries: vec![scan.entries[2].clone_entry()], discovered: vec![] };
    assert_eq!(generate_sparse_patterns(&none, "app"), Err(SetupError::NoPatterns));
}

trait CloneEntry {
    fn clone_entry(&self) -> IndexEntry;
}

impl CloneEntry for IndexEntry {
    fn clone_entry(&self) -> IndexEntry {
        let state = match &self.state {
            AttrState::Value(v) => AttrState::Value(v.clone()),
            AttrState::Enabled => AttrState::Enabled,
            AttrState::Unset => AttrState::Unset,
            AttrState::Unspecified => AttrState::Unspecified,
        };
        let kind = match self.kind {
            EntryKind::File => EntryKind::File,
            EntryKind::Gitlink(c) => EntryKind::Gitlink(c),
        };
        IndexEntry { path: self.path.clone(), state, kind }
    }
}

#[test]
fn teardown_prunes_inside_the_modules_root_only() {
    assert_eq!(
        prune_empty_parents("/r/.git/modules/vendor/x", "/r/.git/modules"),
        strings(&["/r/.git/modules/vendor/x", "/r/.git/modules/vendor"])
    );
    assert!(prune_empty_parents("/r/.git/modules", "/r/.git/modules").is_empty());
    assert_eq!(parent_text("a/b/c"), "a/b");
    assert_eq!(parent_text("abc"), "");
    assert_eq!(modules_path("/r/.git", "vendor/lib"), "/r/.git/modules/vendor/lib");
}

#[test]
fn tag_choice_decisions() {
    assert_eq!(tag_to_use(Some("app".to_string()), true), Ok(Some("app".to_string())));
    assert_eq!(tag_to_use(None, true), Err(GenerateError::TagRequired));
    assert_eq!(tag_to_use(None, false), Ok(None));
    assert!(preview_needed(false, false));
    assert!(!preview_needed(true, false));
    assert!(!preview_needed(false, true));

    let picked = SearchOutcome {
        accepted: true,
        query: "x".to_string(),
        selection: Some(SearchSelection::Attribute(AttributeRow::new("docs".to_string(), 3))),
    };
    assert_eq!(tag_from_outcome(&picked), Ok("docs".to_string()));
    let typed = SearchOutcome { accepted: true, query: "  app  ".to_string(), selection: None };
    assert_eq!(tag_from_outcome(&typed), Ok("app".to_string()));
    let blank = SearchOutcome { accepted: true, query: " ".to_string(), selection: None };
    assert_eq!(tag_from_outcome(&blank), Err(GenerateError::NoTagSelected));
    let file = SearchOutcome {
        accepted: true,
        query: String::new(),
        selection: Some(SearchSelection::File(FileRow::new("a".to_string(), vec![]))),
    };
    assert_eq!(tag_from_outcome(&file), Err(GenerateError::UnexpectedFileSelection));
    let declined = SearchOutcome { accepted: false, query: String::new(), selection: None };
    assert_eq!(tag_from_outcome(&declined), Err(GenerateError::Aborted));
}

#[test]
fn attribute_rows_are_sorted() {
    assert_eq!(attribute_rows(TagCounts::new()), Err(GenerateError::NoAttributes));
    let mut counts = TagCounts::new();
    counts.record("zeta");
    counts.record("alpha");
    counts.record("zeta");
    let rows = attribute_rows(counts).unwrap();
    assert_eq!(rows, vec![AttributeRow::new("alpha".to_string(), 1), AttributeRow::new("zeta".to_string(), 2)]);
}

#[test]
fn picker_rows_read_as_expected() {
    assert_eq!(attribute_text("docs", 12), "\u{f02a2} docs  (12 matches)");
    assert_eq!(file_text('*', "a.rs", &strings(&["app", "docs"])), "\u{f0214} a.rs  [app, docs]");
    assert_eq!(file_text('x', "b", &Vec::new()), "x b");
    let data = SearchData::new()
        .with_attributes(vec![AttributeRow::new("app".to_string(), 2)])
        .with_files(vec![FileRow::new("src/main.rs".to_string(), strings(&["app"]))]);
    let entries = build_entries(data);
    assert_eq!(entries.len(), 2);
    assert_eq!(entries[0].render, "\u{f02a2} app  (2 matches)");
    assert!(entries[1].render.ends_with(" src/main.rs  [app]"));
    assert_ne!(entries[1].render, "src/main.rs");
}

#[test]
fn searcher_rows_sort_their_tags() {
    let row = searcher::FileRow::new("ui.rs".to_string(), strings(&["zeta", "alpha"]));
    assert_eq!(row.tags, strings(&["alpha", "zeta"]));
    assert_eq!(row.display_tags, "alpha, zeta");
    assert_eq!(row.search_text(), "ui.rs alpha, zeta");
    let bare = searcher::FileRow::new("frontend".to_string(), vec![]);
    assert_eq!(bare.search_text(), "frontend");
    let ui = searcher::UiConfig::tags_and_files();
    assert_eq!(searcher::SearchMode::Facets.title(&ui), "Tag search");
    assert_eq!(searcher::SearchMode::Files.count_label(&ui), "Files");
    assert_eq!(searcher::SearchMode::Files.hint(&ui), "Type to filter files by path or tag. Press Tab to view tags.");
    assert_eq!(searcher::SearchMode::Facets.table_title(&ui), "Matching tags");
    let outcome = searcher::SearchOutcome {
        accepted: true,
        selection: Some(searcher::SearchSelection::Facet(searcher::FacetRow::new("docs".to_string(), 4))),
        query: String::new(),
    };
    assert_eq!(outcome.selected_facet().map(|f| f.count), Some(4));
    assert!(outcome.selected_file().is_none());
}

#[test]
fn text_helpers() {
    assert_eq!(trim_text("\u{a0} x y\t"), "x y");
    assert_eq!(split_tokens(" a, ,b ,"), strings(&["a", "b"]));
    assert_eq!(decimal_text(0), "0");
    assert_eq!(decimal_text(907), "907");
}

#[test]
fn setup_steps_run_in_order() {
    let mut seen = Vec::new();
    let mut step = SetupStep::SyncMetadata;
    while step != SetupStep::Done {
        seen.push(step);
        step = next_step(step, false, true);
    }
    assert_eq!(seen.len(), 11);
    assert_eq!(seen[2], SetupStep::AddGitlink);
    assert_eq!(seen[10], SetupStep::LargeFiles);

    let mut second = Vec::new();
    let mut step = SetupStep::SyncMetadata;
    while step != SetupStep::Done {
        second.push(step);
        step = next_step(step, true, false);
    }
    assert!(!second.contains(&SetupStep::AddGitlink));
    assert!(!second.contains(&SetupStep::LargeFiles));
    assert_eq!(second.len(), 9);
}

fn text_node(s: &str) -> git_sparta::discovery::JsonValue {
    git_sparta::discovery::JsonValue::Text(s.to_string())
}

#[test]
fn configuration_is_found_breadth_first() {
    let object = |entries: Vec<(&str, usize)>| {
        git_sparta::discovery::JsonValue::Object(entries.into_iter().map(|(k, v)| (k.to_string(), v)).collect())
    };
    // {"outer": {"SUBMODULE_URL": "deep"}, "SUBMODULE_URL": "top", "list": [cfg]}
    let doc = git_sparta::discovery::JsonDoc {
        nodes: vec![
            object(vec![("SUBMODULE_URL", 2), ("list", 3), ("outer", 1)]),
            object(vec![("SUBMODULE_URL", 4)]),
            text_node("top"),
            git_sparta::discovery::JsonValue::Array(vec![5]),
            text_node("deep"),
            object(vec![
                ("PROJECT_TAG", 6),
                ("SUBMODULE_BRANCH", 7),
                ("SUBMODULE_NAME", 8),
                ("SUBMODULE_PATH", 9),
                ("SUBMODULE_URL", 10),
            ]),
            text_node("app"),
            text_node("main"),
            text_node("lib"),
            text_node("vendor/lib"),
            text_node("U"),
        ],
    };
    let local = git_sparta::discovery::local_overrides(&doc);
    assert_eq!(local.submodule_url, Some("top".to_string()));
    assert_eq!(local.shared_mirror_path, None);
    let config = git_sparta::discovery::base_config(&doc, "/c/sub.json", "/c").unwrap().unwrap();
    assert_eq!(config.submodule_name, "lib");
    assert_eq!(config.submodule_path, "vendor/lib");
    assert_eq!(config.submodule_url, "U");
    assert_eq!(config.project_tag, "app");
    assert_eq!(config.shared_mirror_path, None);
    let empty = git_sparta::discovery::JsonDoc { nodes: vec![object(vec![("x", 0)])] };
    assert!(git_sparta::discovery::base_config(&empty, "f", "w").unwrap().is_none());
    let bad = git_sparta::discovery::JsonDoc {
        nodes: vec![
            object(vec![
                ("PROJECT_TAG", 1),
                ("SUBMODULE_BRANCH", 1),
                ("SUBMODULE_NAME", 1),
                ("SUBMODULE_PATH", 1),
                ("SUBMODULE_URL", 2),
            ]),
            text_node("x"),
            git_sparta::discovery::JsonValue::Scalar,
        ],
    };
    assert_eq!(git_sparta::discovery::base_config(&bad, "f", "w").unwrap_err(), ConfigError::MissingKey);
}
