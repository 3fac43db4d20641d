use noir::git::{
    blame_args, checkout_error, diff_args, parse_blame_porcelain, parse_branches, porcelain_well_formed, repo_relative,
    stage_args, unstage_args, DiffKind, GitEntry, GitStatus,
};

#[test]
fn diff_kinds_cycle_and_label() {
    assert_eq!(DiffKind::first(), DiffKind::Head);
    assert_eq!(DiffKind::Head.cycle(), Some(DiffKind::Unstaged));
    assert_eq!(DiffKind::Unstaged.cycle(), Some(DiffKind::Staged));
    assert_eq!(DiffKind::Staged.cycle(), None);
    assert_eq!(DiffKind::Head.label(), "diff");
    assert_eq!(DiffKind::Unstaged.label(), "unstaged");
    assert_eq!(DiffKind::Staged.label(), "staged");
    assert_eq!(DiffKind::Staged.diff_text(String::new()), "(no staged changes)");
    assert_eq!(DiffKind::Head.diff_text("+x\n".to_string()), "+x\n");
}

#[test]
fn entry_flags_and_code() {
    let e = GitEntry::new("/r/a".to_string(), "a".to_string(), 'M', ' ');
    assert!(e.is_staged());
    assert!(!e.is_unstaged());
    assert_eq!(e.display_code(), "M ");
    let u = GitEntry::new("/r/b".to_string(), "b".to_string(), '?', '?');
    assert!(!u.is_staged());
    assert!(u.is_unstaged());
    let both = GitEntry::new("/r/c".to_string(), "c".to_string(), 'A', 'M');
    assert!(both.is_staged() && both.is_unstaged());
}

#[test]
fn status_parse_marks_parents_and_sorts() {
    let text = " M src/a.rs\n?? New.txt\nR  old.rs -> lib/new.rs\nx\n";
    assert!(porcelain_well_formed(text));
    let st = GitStatus::parse("/r", Some("main\n"), Some(text));
    assert_eq!(st.branch, "main");
    let rels: Vec<&str> = st.entries.iter().map(|e| e.rel.as_str()).collect();
    assert_eq!(rels, vec!["lib/new.rs", "New.txt", "src/a.rs"]);
    assert_eq!(st.entries[0].index, 'R');
    assert_eq!(st.entries[0].path, "/r/lib/new.rs");
    assert_eq!(st.map.get("/r/src/a.rs"), Some('M'));
    assert_eq!(st.map.get("/r/New.txt"), Some('?'));
    assert_eq!(st.map.get("/r/lib/new.rs"), Some('R'));
    assert_eq!(st.map.get("/r/src"), Some('•'));
    assert_eq!(st.map.get("/r/lib"), Some('•'));
    assert_eq!(st.map.get("/r"), Some('•'));
    assert_eq!(st.map.get("/r/old.rs"), None);
}

#[test]
fn status_without_git_is_empty() {
    let st = GitStatus::parse("/r", None, None);
    assert_eq!(st.branch, "");
    assert!(st.entries.is_empty());
    assert_eq!(st.map.get("/r"), None);
}

#[test]
fn quoted_paths_lose_quotes() {
    let text = "?? \"a b.txt\"\n";
    assert!(porcelain_well_formed(text));
    let st = GitStatus::parse("/r", None, Some(text));
    assert_eq!(st.entries[0].rel, "a b.txt");
}

#[test]
fn branches_parse() {
    let bs = parse_branches("dev\t \nmain\t*\n\t*\n  spaced  \n");
    let got: Vec<(&str, bool)> = bs.iter().map(|b| (b.name.as_str(), b.current)).collect();
    assert_eq!(got, vec![("dev", false), ("main", true), ("spaced", false)]);
}

#[test]
fn blame_parse() {
    let text = "0123456789abcdef0123456789abcdef01234567 1 1 1\nauthor Ada Lovelace\nsummary x\n\tfn main() {}\n";
    let lines = parse_blame_porcelain(text);
    assert_eq!(lines.len(), 1);
    assert_eq!(lines[0].short_sha, "0123456");
    assert_eq!(lines[0].author, "Ada Lovelace");
    assert_eq!(lines[0].content, "fn main() {}");
}

#[test]
fn checkout_error_trims_or_defaults() {
    assert_eq!(checkout_error("  error: nope \n"), "error: nope");
    assert_eq!(checkout_error("   "), "checkout failed");
}

#[test]
fn repo_relative_paths() {
    assert_eq!(repo_relative("/r", "/r/src/a.rs"), Some("src/a.rs".to_string()));
    assert_eq!(repo_relative("/r", "/other/a.rs"), None);
}

#[test]
fn command_lines() {
    assert_eq!(diff_args("/r", "a", DiffKind::Head), vec!["-C", "/r", "diff", "HEAD", "--", "a"]);
    assert_eq!(diff_args("/r", "a", DiffKind::Unstaged), vec!["-C", "/r", "diff", "--", "a"]);
    assert_eq!(diff_args("/r", "a", DiffKind::Staged), vec!["-C", "/r", "diff", "--cached", "--", "a"]);
    assert_eq!(stage_args("/r", "a"), vec!["-C", "/r", "add", "--", "a"]);
    assert_eq!(unstage_args("/r", "a"), vec!["-C", "/r", "restore", "--staged", "--", "a"]);
    assert_eq!(blame_args("/r", "a"), vec!["-C", "/r", "blame", "--line-porcelain", "--", "a"]);
}

#[test]
fn status_lines_are_read_by_bytes() {
    // "é" takes two bytes, so the third byte is the space and the path follows
    let text = "é x.txt\n";
    assert!(porcelain_well_formed(text));
    let st = GitStatus::parse("/r", None, Some(text));
    assert_eq!(st.entries[0].index, 0xC3u8 as char);
    assert_eq!(st.entries[0].worktree, 0xA9u8 as char);
    assert_eq!(st.entries[0].rel, "x.txt");
    // "€" takes three bytes: the path starts right after it
    let st = GitStatus::parse("/r", None, Some("€ab\n"));
    assert_eq!(st.entries[0].rel, "ab");
    // a fourth byte inside a character cannot be read
    assert!(!porcelain_well_formed("a€b\n"));
}
