use git_sparta::attributes::{AttrState, CollectState, TagCounts};
use git_sparta::collect::{collect_matching_files, collect_sparse_patterns, discover_all_tags, sorted_patterns};
use git_sparta::generate::{patterns_to_emit, GenerateError};
use git_sparta::scan::{DiscoveredModule, EntryKind, IndexEntry, RepoScan, RepoTree};

fn file(path: &str, state: AttrState) -> IndexEntry {
    IndexEntry { path: path.to_string(), state, kind: EntryKind::File }
}

fn value(v: &str) -> AttrState {
    AttrState::Value(v.to_string())
}

fn gitlink(path: &str, repo: Option<usize>) -> IndexEntry {
    IndexEntry { path: path.to_string(), state: AttrState::Unspecified, kind: EntryKind::Gitlink(repo) }
}

fn repo(entries: Vec<IndexEntry>, discovered: Vec<DiscoveredModule>) -> RepoScan {
    RepoScan { entries, discovered }
}

fn count(entries: &[(String, usize)], tag: &str) -> Option<usize> {
    entries.iter().find(|(t, _)| t == tag).map(|(_, n)| *n)
}

fn tags_of(state: &CollectState, pattern: &str) -> Vec<String> {
    let mut tags = state
        .file_map
        .iter()
        .find(|(p, _)| p == pattern)
        .map(|(_, t)| t.clone())
        .unwrap_or_default();
    tags.sort();
    tags
}

#[test]
fn substring_filter_selects_only_matching_tokens() {
    let tree = RepoTree { repos: vec![repo(vec![file("f", value("backend,app/core"))], vec![])] };

    let counts = discover_all_tags(&tree).into_inner();
    assert_eq!(count(&counts, "backend"), Some(1));
    assert_eq!(count(&counts, "app/core"), Some(1));

    let state = collect_matching_files(&tree, "app");
    assert_eq!(state.patterns, vec!["f".to_string()]);
    assert_eq!(state.matches, vec![("f".to_string(), "app/core".to_string())]);
    assert_eq!(count(&state.tag_counts, "app/core"), Some(1));
    assert_eq!(count(&state.tag_counts, "backend"), None);
    assert_eq!(tags_of(&state, "f"), vec!["app/core".to_string()]);
}

#[test]
fn set_attribute_is_global_for_every_tag() {
    let tree = RepoTree { repos: vec![repo(vec![file("README.md", AttrState::Enabled), file("x", value("docs"))], vec![])] };
    for tag in ["app", "docs", "zzz"] {
        let state = collect_matching_files(&tree, tag);
        assert!(state.patterns.contains(&"README.md".to_string()));
        assert_eq!(tags_of(&state, "README.md"), vec!["global".to_string()]);
        assert_eq!(count(&state.tag_counts, "global"), Some(1));
    }
}

#[test]
fn nested_submodule_paths_are_composed() {
    let tree = RepoTree {
        repos: vec![
            repo(vec![gitlink("vendor/lib", Some(1)), file("top.txt", value("app"))], vec![]),
            repo(vec![file("src/lib.rs", value("app")), gitlink("deep", Some(2))], vec![]),
            repo(vec![file("a.rs", value("app"))], vec![]),
        ],
    };
    let state = collect_matching_files(&tree, "app");
    assert_eq!(
        state.patterns,
        vec!["vendor/lib/src/lib.rs".to_string(), "vendor/lib/deep/a.rs".to_string(), "top.txt".to_string()]
    );
    assert_eq!(
        sorted_patterns(&state),
        vec!["top.txt".to_string(), "vendor/lib/deep/a.rs".to_string(), "vendor/lib/src/lib.rs".to_string()]
    );
}

#[test]
fn discovered_submodule_listed_in_index_is_visited_once() {
    let tree = RepoTree {
        repos: vec![
            repo(
                vec![gitlink("vendor/lib", Some(1))],
                vec![
                    DiscoveredModule { path: "vendor/lib".to_string(), repo: Some(2) },
                    DiscoveredModule { path: "extra".to_string(), repo: Some(3) },
                    DiscoveredModule { path: "extra".to_string(), repo: Some(3) },
                    DiscoveredModule { path: "gone".to_string(), repo: None },
                ],
            ),
            repo(vec![file("a.rs", value("app"))], vec![]),
            repo(vec![file("a.rs", value("app"))], vec![]),
            repo(vec![file("b.rs", value("app"))], vec![]),
        ],
    };
    let state = collect_matching_files(&tree, "app");
    assert_eq!(state.patterns, vec!["vendor/lib/a.rs".to_string(), "extra/b.rs".to_string()]);
    assert_eq!(state.matches.len(), 2);
    let counts = discover_all_tags(&tree).into_inner();
    assert_eq!(count(&counts, "app"), Some(2));
}

#[test]
fn unchecked_out_submodule_is_skipped() {
    let tree = RepoTree {
        repos: vec![repo(
            vec![gitlink("vendor/lib", None), file("x", value("app"))],
            vec![DiscoveredModule { path: "vendor/lib".to_string(), repo: None }],
        )],
    };
    let state = collect_matching_files(&tree, "app");
    assert_eq!(state.patterns, vec!["x".to_string()]);
}

#[test]
fn collecting_twice_gives_the_same_result() {
    let tree = RepoTree {
        repos: vec![repo(vec![file("b", value("app, docs")), file("a", value("app")), file("c", AttrState::Enabled)], vec![])],
    };
    let first = collect_matching_files(&tree, "app");
    let second = collect_matching_files(&tree, "app");
    assert_eq!(sorted_patterns(&first), sorted_patterns(&second));
    assert_eq!(first.tag_counts, second.tag_counts);
    assert_eq!(sorted_patterns(&first), vec!["a".to_string(), "b".to_string(), "c".to_string()]);
}

#[test]
fn nonexistent_tag_matches_nothing() {
    let tree = RepoTree {
        repos: vec![repo(vec![file("a", value("app/core")), file("b", value("docs")), file("c", AttrState::Unset)], vec![])],
    };
    let state = collect_matching_files(&tree, "nonexistent");
    assert!(state.patterns.is_empty());
    assert!(state.matches.is_empty());
    assert_eq!(patterns_to_emit(&state), Err(GenerateError::NoMatch));
}

#[test]
fn tokens_are_trimmed_and_empty_ones_dropped() {
    let tree = RepoTree { repos: vec![repo(vec![file("f", value(" app ,, docs,\t"))], vec![])] };
    let counts = discover_all_tags(&tree).into_inner();
    assert_eq!(counts.len(), 2);
    assert_eq!(count(&counts, "app"), Some(1));
    assert_eq!(count(&counts, "docs"), Some(1));
}

#[test]
fn tag_counts_record_and_report() {
    let mut counts = TagCounts::new();
    assert!(counts.is_empty());
    counts.record("app");
    counts.record("docs");
    counts.record("app");
    assert!(!counts.is_empty());
    let inner = counts.into_inner();
    assert_eq!(count(&inner, "app"), Some(2));
    assert_eq!(count(&inner, "docs"), Some(1));
}

#[test]
fn record_match_keeps_one_pattern_with_all_its_tokens() {
    let mut state = CollectState::new();
    state.record_match("p", "app/core", "app");
    state.record_match("p", "app/ui", "app");
    state.record_match("p", "docs", "app");
    assert_eq!(state.patterns, vec!["p".to_string()]);
    assert_eq!(state.matches.len(), 2);
    assert_eq!(tags_of(&state, "p"), vec!["app/core".to_string(), "app/ui".to_string()]);
}

#[test]
fn sparse_scan_includes_set_and_matching_values() {
    let r = repo(
        vec![
            file("a", AttrState::Enabled),
            file("b", value("docs")),
            file("c", value("x, app/core")),
            IndexEntry { path: "mod".to_string(), state: value("global"), kind: EntryKind::Gitlink(None) },
        ],
        vec![],
    );
    assert_eq!(
        collect_sparse_patterns(&r, "app"),
        vec!["a".to_string(), "c".to_string(), "mod".to_string()]
    );
}
