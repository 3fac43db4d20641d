use noir::search::{fuzzy_score, has_skipped_component, index_skips, stale_after, FileIndex};

#[test]
fn subsequence_matches() {
    assert!(fuzzy_score("app", "src/app.rs").is_some());
    assert!(fuzzy_score("sar", "src/app.rs").is_some());
    assert!(fuzzy_score("zzz", "src/app.rs").is_none());
}

#[test]
fn prefers_filename() {
    let a = fuzzy_score("app", "src/app.rs").unwrap();
    let b = fuzzy_score("app", "apple/src/other.rs").unwrap();
    assert!(a > b);
}

#[test]
fn fuzzy_exact_scores() {
    // a: 10+20(after /)+35(file start) ; p: 10+25+15 ; p: 10+25+15 = 165 - first(4) - 10/4(2)
    assert_eq!(fuzzy_score("app", "src/app.rs"), Some(159));
    assert_eq!(fuzzy_score("", "anything"), Some(0));
    assert_eq!(fuzzy_score("APP", "src/app.rs"), Some(159));
    assert_eq!(fuzzy_score("abcdef", "abc"), None);
}

#[test]
fn fuzzy_counts_bytes_for_length_penalty() {
    // "é/x": file name starts at byte 3, the x sits at char 2
    let s = fuzzy_score("x", "é/x").unwrap();
    // 10 + 20 (after the slash); char index 2 is below byte offset 3, so no file-name bonus
    assert_eq!(s, 30 - 2 - 4 / 4);
}

fn index(paths: &[&str]) -> FileIndex {
    let mut idx = FileIndex::default();
    idx.paths = paths.iter().map(|p| p.to_string()).collect();
    idx
}

#[test]
fn search_ranks_and_limits() {
    let idx = index(&["apple/src/other.rs", "src/app.rs", "README.md"]);
    let hits = idx.search("/w", "app", 10);
    assert_eq!(hits.len(), 2);
    assert_eq!(hits[0].rel, "src/app.rs");
    assert_eq!(hits[0].abs, "/w/src/app.rs");
    assert_eq!(hits[1].rel, "apple/src/other.rs");
    let one = idx.search("/w", "app", 1);
    assert_eq!(one.len(), 1);
    assert_eq!(one[0].rel, "src/app.rs");
}

#[test]
fn search_empty_query_lists_first_paths() {
    let idx = index(&["b.rs", "a.rs", "c.rs"]);
    let hits = idx.search("/w", "   ", 2);
    assert_eq!(hits.len(), 2);
    assert_eq!(hits[0].rel, "b.rs");
    assert_eq!(hits[0].score, 0);
    assert_eq!(hits[1].abs, "/w/a.rs");
}

#[test]
fn search_ties_break_by_length_then_name() {
    let idx = index(&["bb/x", "aa/x", "a/x"]);
    let hits = idx.search("/w", "x", 10);
    let names: Vec<&str> = hits.iter().map(|h| h.rel.as_str()).collect();
    assert_eq!(names[0], "a/x");
    assert_eq!(names[1], "aa/x");
    assert_eq!(names[2], "bb/x");
}

#[test]
fn rebuild_normalizes_and_sorts() {
    let mut idx = FileIndex::default();
    assert!(idx.is_stale(30));
    idx.rebuild_from(
        "/w",
        vec![
            "/w/src/Main.rs".to_string(),
            "/elsewhere/x".to_string(),
            "/w/a\\b.txt".to_string(),
            "/w/README".to_string(),
            "/w".to_string(),
        ],
    );
    assert_eq!(idx.paths, vec!["a/b.txt", "README", "src/Main.rs"]);
    assert!(!idx.is_stale(30));
    assert!(idx.is_stale(0));
    idx.built_at_invalidate();
    assert!(idx.is_stale(30));
}

#[test]
fn staleness_by_age() {
    assert!(stale_after(30, 30));
    assert!(stale_after(31, 30));
    assert!(!stale_after(29, 30));
    assert!(stale_after(0, 0));
}

#[test]
fn quick_open_leaves_out_tool_directories() {
    for name in [".git", "node_modules", "target", "dist", ".venv", "vendor"] {
        assert!(index_skips(name));
    }
    assert!(!index_skips("src"));
    assert!(!index_skips("vendors"));
    let v = |s: &str| s.chars().collect::<Vec<char>>();
    assert!(has_skipped_component(&v("a/vendor/b.rs")));
    assert!(has_skipped_component(&v(".venv/x")));
    assert!(has_skipped_component(&v("src/dist")));
    assert!(!has_skipped_component(&v("src/distant/x.rs")));
    let mut idx = FileIndex::default();
    idx.rebuild_from(
        "/w",
        vec!["/w/vendor/lib.rs".to_string(), "/w/.venv/bin/py".to_string(), "/w/src/main.rs".to_string()],
    );
    assert_eq!(idx.paths, vec!["src/main.rs"]);
}

#[test]
fn ascii_case_changes_no_score() {
    assert_eq!(fuzzy_score("APP", "SRC/APP.RS"), fuzzy_score("app", "src/app.rs"));
    assert_eq!(fuzzy_score("ApP", "Src/App.rs"), fuzzy_score("app", "src/app.rs"));
}
