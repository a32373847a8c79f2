use language_onboarding::project::{
    find_parent_module, parent_module_candidates, Project, Worktree, WorktreeId,
};
use language_onboarding::rel_path::RelPath;
use std::path::Path;

fn rel_path(path: &str) -> RelPath {
    RelPath::unix(path).unwrap()
}

fn project(id: usize, entries: &[&str]) -> Project {
    Project {
        worktrees: vec![Worktree {
            id: WorktreeId(id),
            entries: entries.iter().map(|entry| rel_path(entry)).collect(),
        }],
    }
}

/// The name and the path of the parent module in worktree 0.
fn parent(path: &str, project: &Project) -> Option<(String, String)> {
    find_parent_module(&rel_path(path), WorktreeId(0), project)
        .map(|(name, path)| (name, path.as_unix_str()))
}

fn found(name: &str, path: &str) -> Option<(String, String)> {
    Some((name.to_string(), path.to_string()))
}

#[test]
fn paths_read_and_written() {
    for path in ["", "a", "src/lib.rs", "a/b/c", "\u{e9}/.x", "...", "a b/c"] {
        assert_eq!(rel_path(path).as_unix_str(), path);
        assert_eq!(rel_path(path).is_empty(), path.is_empty());
    }
    for path in ["/", "/a", "a/", "a//b", ".", "./a", "a/./b", "..", "a/..", "../a"] {
        assert!(RelPath::unix(path).is_none(), "{}", path);
    }
}

#[test]
fn paths_compare_by_component() {
    assert_eq!(rel_path("a/b"), rel_path("a/b"));
    assert_eq!(rel_path("a/b").clone(), rel_path("a/b"));
    assert_ne!(rel_path("a/b"), rel_path("a"));
    assert_ne!(rel_path("a/b"), rel_path("a/c"));
    assert_eq!(rel_path("a").join("b.rs".to_string()), rel_path("a/b.rs"));
}

#[test]
fn parts_of_paths() {
    for path in [
        "", "a", "src/lib.rs", "a/b.tar.gz", ".rs", "a/.hidden", ".a.rs", "x.", "a.b/c", "...",
        "..a", "\u{e9}.\u{3b1}", "rs", "a.rs.",
    ] {
        let std_path = Path::new(path);
        let path = rel_path(path);
        assert_eq!(path.file_name(), std_path.file_name().map(|name| name.to_str().unwrap()));
        assert_eq!(path.file_stem(), std_path.file_stem().map(|stem| stem.to_str().unwrap()));
        assert_eq!(path.extension(), std_path.extension().map(|ext| ext.to_str().unwrap()));
        assert_eq!(
            path.parent().map(|parent| parent.as_unix_str()),
            std_path.parent().map(|parent| parent.to_str().unwrap().to_string())
        );
    }
}

#[test]
fn likelier_candidates_come_first() {
    let all = ["a/b/mod.rs", "a/b/lib.rs", "a/b/main.rs", "a/b.rs", "a/b/c.rs"];
    assert_eq!(parent("a/b/c.rs", &project(0, &all)), found("mod.rs", "a/b/mod.rs"));
    assert_eq!(parent("a/b/c.rs", &project(0, &all[1..])), found("lib.rs", "a/b/lib.rs"));
    assert_eq!(parent("a/b/c.rs", &project(0, &all[2..])), found("main.rs", "a/b/main.rs"));
    assert_eq!(parent("a/b/c.rs", &project(0, &all[3..])), found("b.rs", "a/b.rs"));
    assert_eq!(parent("a/b/c.rs", &project(0, &all[4..])), None);
}

#[test]
fn files_at_the_root() {
    assert_eq!(parent("x.rs", &project(0, &["x.rs", "main.rs"])), found("main.rs", "main.rs"));
    assert_eq!(parent("foo/bar.rs", &project(0, &["foo.rs"])), found("foo.rs", "foo.rs"));
    assert_eq!(parent("x.rs", &project(0, &["x.rs"])), None);
    assert_eq!(parent("", &project(0, &["mod.rs", "lib.rs"])), None);
}

#[test]
fn a_root_file_is_its_own_candidate() {
    assert_eq!(parent("src/lib.rs", &project(0, &["src/lib.rs"])), found("lib.rs", "src/lib.rs"));
}

#[test]
fn other_worktrees_do_not_count() {
    assert_eq!(parent("src/x.rs", &project(1, &["src/lib.rs"])), None);
    let mut both = project(1, &["src/lib.rs"]);
    both.worktrees.push(Worktree { id: WorktreeId(0), entries: vec![rel_path("src/main.rs")] });
    assert_eq!(parent("src/x.rs", &both), found("main.rs", "src/main.rs"));
}

#[test]
fn candidates_of_a_file() {
    let candidates: Vec<(String, String)> = parent_module_candidates(&rel_path("a/b/c.rs"))
        .into_iter()
        .map(|(name, path)| (name, path.as_unix_str()))
        .collect();
    let expected = [
        ("mod.rs", "a/b/mod.rs"),
        ("lib.rs", "a/b/lib.rs"),
        ("main.rs", "a/b/main.rs"),
        ("b.rs", "a/b.rs"),
    ];
    assert_eq!(candidates.len(), expected.len());
    for (candidate, (name, path)) in candidates.iter().zip(expected) {
        assert_eq!(candidate, &(name.to_string(), path.to_string()));
    }
    assert_eq!(parent_module_candidates(&rel_path("c.rs")).len(), 3);
    assert!(parent_module_candidates(&rel_path("")).is_empty());
}

#[test]
fn only_the_candidates_matter() {
    let few = project(0, &["src/main.rs"]);
    let many = project(0, &["src", "src/a.rs", "src/b/mod.rs", "src/main.rs", "lib.rs"]);
    assert_eq!(parent("src/x.rs", &few), parent("src/x.rs", &many));
}
