use noir::git::DiffKind;
use noir::viewer::{blame_prefix, diff_line_kind, truncate_str, DiffLineKind, FileViewer, ViewMode};
use noir::syntax::{file_extension, syntax_lookups, SyntaxLookup};

fn viewer() -> FileViewer<String> {
    let mut v = FileViewer::new();
    assert!(v.open("/w/a.rs"));
    assert!(v.open("/w/b.rs"));
    v
}

#[test]
fn open_reuses_tabs() {
    let mut v = viewer();
    assert_eq!(v.active, 1);
    assert!(!v.open("/w/a.rs"));
    assert_eq!(v.active, 0);
    assert_eq!(v.tabs.len(), 2);
    assert_eq!(v.title(), "a.rs");
    assert_eq!(v.path().map(|p| p.as_str()), Some("/w/a.rs"));
}

#[test]
fn empty_viewer() {
    let v: FileViewer<String> = FileViewer::new();
    assert!(v.is_empty());
    assert_eq!(v.title(), "No file open");
    assert_eq!(v.mode(), ViewMode::File);
    assert_eq!(v.mode_label(), "EDITOR");
    assert_eq!(v.scroll(), 0);
    assert!(v.lines().is_empty());
}

#[test]
fn diff_cycle_and_blame_toggle() {
    let mut v = viewer();
    assert!(v.toggle_diff());
    assert_eq!(v.mode(), ViewMode::Diff(DiffKind::Head));
    assert_eq!(v.mode_label(), "diff");
    v.toggle_diff();
    assert_eq!(v.mode(), ViewMode::Diff(DiffKind::Unstaged));
    v.toggle_diff();
    assert_eq!(v.mode(), ViewMode::Diff(DiffKind::Staged));
    assert!(v.show_diff());
    v.toggle_diff();
    assert_eq!(v.mode(), ViewMode::File);
    v.toggle_blame();
    assert_eq!(v.mode(), ViewMode::Blame);
    assert_eq!(v.mode_label(), "BLAME");
    v.toggle_blame();
    assert_eq!(v.mode(), ViewMode::File);
    v.set_diff_kind(DiffKind::Staged);
    assert_eq!(v.mode(), ViewMode::Diff(DiffKind::Staged));
    v.show_blame();
    assert_eq!(v.mode(), ViewMode::Blame);
}

#[test]
fn scrolling_stays_within_lines() {
    let mut v = viewer();
    v.set_lines(1, (0..10).map(|i| i.to_string()).collect());
    v.scroll_by(5, 4);
    assert_eq!(v.scroll(), 5);
    v.scroll_by(5, 4);
    assert_eq!(v.scroll(), 6);
    v.scroll_by(-100, 4);
    assert_eq!(v.scroll(), 0);
    v.set_scroll(3);
    assert_eq!(v.scroll(), 3);
    // a mode change scrolls back to the top
    v.toggle_diff();
    assert_eq!(v.scroll(), 0);
}

#[test]
fn closing_tabs_keeps_active_in_range() {
    let mut v = viewer();
    assert!(v.open("/w/c.rs"));
    assert!(v.close_at(0));
    assert_eq!(v.active, 1);
    assert_eq!(v.title(), "c.rs");
    assert!(!v.close_at(5));
    assert!(v.close_active());
    assert_eq!(v.title(), "b.rs");
    assert!(v.close_active());
    assert!(!v.close_active());
    assert!(v.is_empty());
}

#[test]
fn tabs_showing_a_path() {
    let v = viewer();
    assert_eq!(v.tabs_showing("/w/b.rs"), vec![1]);
    assert!(v.tabs_showing("/w/z.rs").is_empty());
}

#[test]
fn diff_lines_are_classified() {
    assert_eq!(diff_line_kind("+added"), DiffLineKind::Added);
    assert_eq!(diff_line_kind("+++ b/x"), DiffLineKind::Context);
    assert_eq!(diff_line_kind("-gone"), DiffLineKind::Removed);
    assert_eq!(diff_line_kind("--- a/x"), DiffLineKind::Context);
    assert_eq!(diff_line_kind("@@ -1 +1 @@"), DiffLineKind::Hunk);
    assert_eq!(diff_line_kind(" same"), DiffLineKind::Context);
}

#[test]
fn truncation_pads_to_width() {
    assert_eq!(truncate_str("ab", 4), "ab  ");
    assert_eq!(truncate_str("abcdef", 4), "abcd");
    assert_eq!(truncate_str("", 0), "");
}

#[test]
fn blame_columns() {
    assert_eq!(blame_prefix("abc1234", "Grace Hopper-Smith"), "abc1234 Grace Hopper ");
    assert_eq!(blame_prefix("ab", "Al"), "ab      Al           ");
}

fn show(v: Vec<SyntaxLookup>) -> Vec<String> {
    v.into_iter()
        .map(|l| match l {
            SyntaxLookup::ByName(n) => format!("name:{n}"),
            SyntaxLookup::ByExtension(e) => format!("ext:{e}"),
        })
        .collect()
}

#[test]
fn syntax_lookups_by_name_and_extension() {
    assert_eq!(show(syntax_lookups("App.TSX")), vec!["name:TSX", "ext:tsx", "name:TypeScript"]);
    assert_eq!(show(syntax_lookups("x.mts")), vec!["name:TypeScript", "ext:ts"]);
    assert_eq!(show(syntax_lookups("Dockerfile.dev")), vec!["name:Dockerfile"]);
    assert_eq!(show(syntax_lookups("notes.YML")), vec!["name:YAML", "ext:yaml"]);
    assert_eq!(show(syntax_lookups("main.RS")), vec!["ext:rs"]);
    assert!(syntax_lookups("README").is_empty());
    assert!(syntax_lookups(".bashrc").is_empty());
    assert_eq!(file_extension("a.tar.gz"), Some("gz".to_string()));
    assert_eq!(file_extension(".env"), None);
    assert_eq!(file_extension("x."), Some(String::new()));
}

#[test]
fn same_path_written_twice_is_one_tab() {
    let mut v = viewer();
    assert!(!v.open("/w//a.rs"));
    assert_eq!(v.active, 0);
    assert_eq!(v.tabs.len(), 2);
    assert_eq!(v.tabs_showing("/w/./b.rs"), vec![1]);
    assert!(v.open("/w/c/"));
    assert_eq!(v.tabs[2].title, "c");
}
