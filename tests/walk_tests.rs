use repo_glob_walk::gitmodules::{get_submodule_paths, read_submodule_paths, ConfigParseError};
use repo_glob_walk::glob::{glob_to_regex, PatternSet};
use repo_glob_walk::walk::{
    compare_entries, walk_repo_glob, walk_repo_globs, walk_repo_globs_map, EntryKind, Exclusion,
    WalkEntry,
};
use std::cmp::Ordering;

fn last_name(path: &str) -> String {
    path.rsplit('/').next().unwrap().to_string()
}

/// Visits a tree given as (kind, path) pairs in traversal order, applying the
/// entry filter and leaving out everything beneath a rejected directory.
fn visit(tree: &[(EntryKind, &str)], ex: &Exclusion) -> Vec<WalkEntry> {
    let mut pruned: Vec<String> = Vec::new();
    let mut out = Vec::new();
    for (kind, path) in tree {
        if pruned.iter().any(|p| path.starts_with(&format!("{}/", p))) {
            continue;
        }
        let name = Some(last_name(path));
        let rel = Some(path.to_string());
        if !ex.keep_entry(*kind, &name, &rel) {
            pruned.push(path.to_string());
            continue;
        }
        out.push(WalkEntry { kind: *kind, path: rel });
    }
    out
}

fn strings(v: &[&str]) -> Vec<String> {
    v.iter().map(|s| s.to_string()).collect()
}

fn sample_tree() -> Vec<(EntryKind, &'static str)> {
    vec![
        (EntryKind::File, "package.json"),
        (EntryKind::File, "yarn.lock"),
        (EntryKind::Dir, ".git"),
        (EntryKind::File, ".git/HEAD"),
        (EntryKind::Dir, "lib"),
        (EntryKind::File, "lib/package-lock.json"),
        (EntryKind::File, "lib/package.json"),
        (EntryKind::Symlink, "lib/linked"),
    ]
}

#[test]
fn test_read_submodule_paths() {
    let gitmodules = r#"
    [submodule "foo/bar/baz"]
            path = foo/bar/baz
            url = https://github.com/zharinov/good-enough-parser
  "#;
    let paths = read_submodule_paths(gitmodules).unwrap();
    assert_eq!(paths, Some(vec!["foo/bar/baz".to_string()]));
}

#[test]
fn test_walk_repo_glob() {
    let entries = visit(&sample_tree(), &Exclusion::new(&None));
    let paths = walk_repo_glob(&entries, "*.json".to_string());
    assert_eq!(paths, strings(&["package.json"]));
}

#[test]
fn test_walk_repo_globs() {
    let entries = visit(&sample_tree(), &Exclusion::new(&None));
    let globs = vec!["**/package.json".to_string(), "**/package-lock.json".to_string()];
    let paths = walk_repo_globs(&entries, globs);
    assert_eq!(paths, strings(&["package.json", "lib/package-lock.json", "lib/package.json"]));
}

#[test]
fn test_walk_repo_globs_map() {
    let entries = visit(&sample_tree(), &Exclusion::new(&None));
    let globs_map = vec![
        ("package".to_string(), strings(&["**/package.json", "**/package-lock.json"])),
        ("lock".to_string(), strings(&["**/yarn.lock", "**/package-lock.json"])),
    ];
    let paths_map = walk_repo_globs_map(&entries, &globs_map);
    assert_eq!(
        paths_map,
        vec![
            (
                "package".to_string(),
                strings(&["package.json", "lib/package-lock.json", "lib/package.json"])
            ),
            ("lock".to_string(), strings(&["yarn.lock", "lib/package-lock.json"])),
        ]
    );
}

#[test]
fn single_submodule_section_gives_its_path() {
    let text = "[submodule \"x\"]\n\tpath = vendor/lib\n";
    assert_eq!(read_submodule_paths(text), Ok(Some(vec!["vendor/lib".to_string()])));
}

#[test]
fn sections_without_path_are_skipped() {
    let text = "[submodule \"a\"]\n\turl = u\n[submodule \"b\"]\n\tpath = b\n";
    assert_eq!(read_submodule_paths(text), Ok(Some(vec!["b".to_string()])));
    let text = "[submodule \"a\"]\n\turl = u\n";
    assert_eq!(read_submodule_paths(text), Ok(Some(vec![])));
}

#[test]
fn no_submodule_section_gives_none() {
    assert_eq!(read_submodule_paths("[core]\n\tbare = false\n"), Ok(None));
    assert_eq!(read_submodule_paths(""), Ok(None));
}

#[test]
fn malformed_config_is_an_error() {
    assert_eq!(read_submodule_paths("[submodule \"a\"\npath = x\n"), Err(ConfigParseError));
    assert_eq!(get_submodule_paths(Some("[submodule \"a\"\npath = x\n".to_string())), None);
}

#[test]
fn missing_gitmodules_excludes_nothing() {
    assert_eq!(get_submodule_paths(None), None);
    let ex = Exclusion::new(&get_submodule_paths(None));
    assert!(ex.submodules.is_none());
    let name = Some("lib".to_string());
    assert!(ex.keep_entry(EntryKind::Dir, &name, &Some("vendor/lib".to_string())));
}

#[test]
fn gitmodules_with_paths_resolves() {
    let text = "[submodule \"lib\"]\n\tpath = vendor/lib\n".to_string();
    assert_eq!(get_submodule_paths(Some(text)), Some(vec!["vendor/lib".to_string()]));
    assert_eq!(get_submodule_paths(Some("[core]\n".to_string())), None);
}

#[test]
fn entry_filter_rules() {
    let ex = Exclusion::new(&Some(vec!["vendor/lib".to_string()]));
    let n = |s: &str| Some(s.to_string());
    assert!(!ex.keep_entry(EntryKind::Unknown, &n("a"), &n("a")));
    assert!(ex.keep_entry(EntryKind::File, &n(".git"), &n(".git")));
    assert!(!ex.keep_entry(EntryKind::Symlink, &n("s"), &n("s")));
    assert!(!ex.keep_entry(EntryKind::Dir, &n(".git"), &n(".git")));
    assert!(!ex.keep_entry(EntryKind::Dir, &n(".git"), &n("sub/.git")));
    assert!(ex.keep_entry(EntryKind::Dir, &n("my.git-backup"), &n("my.git-backup")));
    assert!(!ex.keep_entry(EntryKind::Dir, &n("lib"), &n("vendor/lib")));
    assert!(ex.keep_entry(EntryKind::Dir, &n("vendor"), &n("vendor")));
    assert!(!ex.keep_entry(EntryKind::Dir, &None, &n("x")));
    assert!(!ex.keep_entry(EntryKind::Other, &n("x"), &None));
    assert!(ex.keep_entry(EntryKind::Other, &n("fifo"), &n("fifo")));
}

#[test]
fn sibling_order() {
    assert_eq!(compare_entries(false, b"b", true, b"a"), Ordering::Less);
    assert_eq!(compare_entries(true, b"a", false, b"b"), Ordering::Greater);
    assert_eq!(compare_entries(false, b"a", false, b"b"), Ordering::Less);
    assert_eq!(compare_entries(true, b"ab", true, b"a"), Ordering::Greater);
    assert_eq!(compare_entries(true, b"a", true, b"ab"), Ordering::Less);
    assert_eq!(compare_entries(false, b"same", false, b"same"), Ordering::Equal);
    assert_eq!(compare_entries(false, b"B", false, b"a"), Ordering::Less);
}

#[test]
fn star_glob_scenario_excludes_git() {
    let tree = vec![
        (EntryKind::File, "a.txt"),
        (EntryKind::Dir, ".git"),
        (EntryKind::File, ".git/HEAD"),
        (EntryKind::Dir, "b"),
        (EntryKind::File, "b/b.txt"),
    ];
    let entries = visit(&tree, &Exclusion::new(&None));
    // `*` stops at `/`; `**` is needed to reach into subdirectories.
    assert_eq!(walk_repo_glob(&entries, "*.txt".to_string()), strings(&["a.txt"]));
    assert_eq!(walk_repo_glob(&entries, "**/*.txt".to_string()), strings(&["a.txt", "b/b.txt"]));
    assert_eq!(walk_repo_glob(&entries, "b/?.txt".to_string()), strings(&["b/b.txt"]));
    assert_eq!(walk_repo_glob(&entries, "?/b.txt".to_string()), strings(&["b/b.txt"]));
}

#[test]
fn submodule_subtree_is_not_visited() {
    let text = "[submodule \"lib\"]\n\tpath = vendor/lib\n\turl = u\n".to_string();
    let ex = Exclusion::new(&get_submodule_paths(Some(text)));
    let tree = vec![
        (EntryKind::File, "readme.md"),
        (EntryKind::Dir, "vendor"),
        (EntryKind::Dir, "vendor/lib"),
        (EntryKind::File, "vendor/lib/readme.md"),
        (EntryKind::Dir, "vendor/other"),
        (EntryKind::File, "vendor/other/readme.md"),
    ];
    let entries = visit(&tree, &ex);
    assert_eq!(
        walk_repo_glob(&entries, "**/*.md".to_string()),
        strings(&["readme.md", "vendor/other/readme.md"])
    );
}

#[test]
fn named_mapping_scenario() {
    let tree = vec![
        (EntryKind::Dir, "pkg"),
        (EntryKind::File, "pkg/package.json"),
        (EntryKind::File, "pkg/yarn.lock"),
    ];
    let entries = visit(&tree, &Exclusion::new(&None));
    let map = vec![
        ("json".to_string(), strings(&["**/*.json"])),
        ("lock".to_string(), strings(&["**/*.lock"])),
        ("none".to_string(), strings(&["**/*.toml"])),
    ];
    assert_eq!(
        walk_repo_globs_map(&entries, &map),
        vec![
            ("json".to_string(), strings(&["pkg/package.json"])),
            ("lock".to_string(), strings(&["pkg/yarn.lock"])),
            ("none".to_string(), vec![]),
        ]
    );
}

#[test]
fn malformed_pattern_does_not_block_others() {
    let tree = vec![(EntryKind::File, "a.json"), (EntryKind::File, "b.lock")];
    let entries = visit(&tree, &Exclusion::new(&None));
    let globs = strings(&["a[", "*.lock"]);
    assert_eq!(walk_repo_globs(&entries, globs), strings(&["b.lock"]));
    let map = vec![("bad".to_string(), strings(&["{a,"])), ("ok".to_string(), strings(&["{a,"]))];
    assert_eq!(
        walk_repo_globs_map(&entries, &map),
        vec![("bad".to_string(), vec![]), ("ok".to_string(), vec![])]
    );
}

#[test]
fn malformed_single_glob_matches_nothing() {
    let tree = vec![(EntryKind::File, "a[")];
    let entries = visit(&tree, &Exclusion::new(&None));
    assert_eq!(walk_repo_glob(&entries, "a[".to_string()), Vec::<String>::new());
}

#[test]
fn directories_symlinks_and_odd_paths_are_not_reported() {
    let entries = vec![
        WalkEntry { kind: EntryKind::Dir, path: Some("d.json".to_string()) },
        WalkEntry { kind: EntryKind::Symlink, path: Some("s.json".to_string()) },
        WalkEntry { kind: EntryKind::File, path: None },
        WalkEntry { kind: EntryKind::File, path: Some("".to_string()) },
        WalkEntry { kind: EntryKind::File, path: Some("f.json".to_string()) },
    ];
    assert_eq!(walk_repo_glob(&entries, "**".to_string()), strings(&["f.json"]));
}

#[test]
fn repeated_walk_gives_same_result() {
    let entries = visit(&sample_tree(), &Exclusion::new(&None));
    let a = walk_repo_globs(&entries, strings(&["**/*.json"]));
    let b = walk_repo_globs(&entries, strings(&["**/*.json"]));
    assert_eq!(a, b);
}

#[test]
fn pattern_set_matching() {
    let set = PatternSet::from_patterns(&strings(&["*.rs", "bad[", "docs/**"])).unwrap();
    assert!(set.is_match("lib.rs"));
    assert!(!set.is_match("src/lib.rs"));
    assert!(set.is_match("docs/a/b.md"));
    assert!(!set.is_match("README.md"));
    let empty = PatternSet::from_patterns(&vec![]).unwrap();
    assert!(!empty.is_match("anything"));
}

#[test]
fn glob_regex_of_patterns() {
    assert_eq!(glob_to_regex("a[".to_string()), None);
    let re = glob_to_regex("*.json".to_string()).unwrap();
    assert_eq!(re, r"(?-u)^[^/]*\.json$");
}
