use noir::git::StatusMap;
use noir::tree::{listed_entry, tree_skips, DirEntry, FileTree};

fn e(name: &str, path: &str, is_dir: bool) -> DirEntry {
    DirEntry { name: name.to_string(), path: path.to_string(), is_dir }
}

fn tree() -> FileTree {
    let mut git = StatusMap::new();
    git.insert("/w/b.rs".chars().collect(), 'M');
    FileTree::new(
        "/w".to_string(),
        git,
        vec![e("b.rs", "/w/b.rs", false), e("Src", "/w/Src", true), e("a.md", "/w/a.md", false), e("docs", "/w/docs", true)],
    )
}

fn names(t: &FileTree) -> Vec<String> {
    t.flat.iter().map(|f| format!("{}{}", "  ".repeat(f.depth as usize), f.name)).collect()
}

#[test]
fn directories_first_then_names_ignoring_case() {
    let t = tree();
    assert_eq!(names(&t), vec!["w", "  docs", "  Src", "  a.md", "  b.rs"]);
    assert_eq!(t.flat[4].git, Some('M'));
    assert_eq!(t.flat[3].git, None);
}

#[test]
fn toggle_opens_files_and_folds_directories() {
    let mut t = tree();
    t.selected = 4;
    assert_eq!(t.toggle_selected(), Some("/w/b.rs".to_string()));
    t.selected = 1;
    assert!(t.needs_children("/w/docs"));
    t.attach_children("/w/docs", vec![e("x.txt", "/w/docs/x.txt", false)]);
    assert!(!t.needs_children("/w/docs"));
    assert_eq!(t.toggle_selected(), None);
    assert_eq!(names(&t), vec!["w", "  docs", "    x.txt", "  Src", "  a.md", "  b.rs"]);
    assert_eq!(t.toggle_selected(), None);
    assert_eq!(names(&t), vec!["w", "  docs", "  Src", "  a.md", "  b.rs"]);
    // the root folds too
    t.selected = 0;
    t.toggle_selected();
    assert_eq!(names(&t), vec!["w"]);
}

#[test]
fn selection_moves_within_rows() {
    let mut t = tree();
    t.move_sel(-1);
    assert_eq!(t.selected, 0);
    t.move_sel(10);
    assert_eq!(t.selected, 4);
    t.scroll_by(3, 2);
    assert_eq!(t.scroll, 3);
    assert_eq!(t.selected, 4);
    t.scroll_by(-3, 2);
    assert_eq!(t.scroll, 0);
    assert_eq!(t.selected, 1);
}

#[test]
fn ensure_visible_scrolls_to_selection() {
    let mut t = tree();
    t.selected = 4;
    t.ensure_visible(2);
    assert_eq!(t.scroll, 3);
    t.selected = 0;
    t.ensure_visible(2);
    assert_eq!(t.scroll, 0);
    t.ensure_visible(0);
    assert_eq!(t.scroll, 0);
}

#[test]
fn click_selects_and_opens() {
    let mut t = tree();
    assert_eq!(t.open_at_flat_index(3), Some("/w/a.md".to_string()));
    assert_eq!(t.selected, 3);
    assert_eq!(t.open_at_flat_index(9), None);
    assert_eq!(t.selected, 3);
}

#[test]
fn reveal_expands_ancestors_and_selects() {
    let mut t = tree();
    t.attach_children("/w/Src", vec![e("lib", "/w/Src/lib", true)]);
    t.attach_children("/w/Src/lib", vec![e("m.rs", "/w/Src/lib/m.rs", false)]);
    assert_eq!(t.first_unloaded_on("/w/Src/lib/m.rs"), None);
    assert_eq!(t.first_unloaded_on("/w/docs/x"), Some("/w/docs".to_string()));
    t.reveal_path("/w/Src/lib/m.rs");
    assert_eq!(names(&t), vec!["w", "  docs", "  Src", "    lib", "      m.rs", "  a.md", "  b.rs"]);
    assert_eq!(t.selected, 4);
    // outside the workspace nothing changes
    t.reveal_path("/elsewhere/x");
    assert_eq!(t.selected, 4);
}

#[test]
fn markers_apply_to_loaded_nodes() {
    let mut t = tree();
    let mut git = StatusMap::new();
    git.insert("/w/a.md".chars().collect(), 'A');
    git.insert("/w".chars().collect(), '•');
    t.set_git(git);
    assert_eq!(t.flat[0].git, Some('•'));
    assert_eq!(t.flat[3].git, Some('A'));
    assert_eq!(t.flat[4].git, None);
}

#[test]
fn explorer_lists_children_but_tool_directories() {
    assert!(tree_skips(".git") && tree_skips("node_modules") && tree_skips("target") && tree_skips("dist"));
    assert!(!tree_skips(".venv") && !tree_skips("vendor") && !tree_skips("src"));
    let e = listed_entry("/w/src", "main.rs", false).unwrap();
    assert_eq!((e.name.as_str(), e.path.as_str(), e.is_dir), ("main.rs", "/w/src/main.rs", false));
    let d = listed_entry("/", "etc", true).unwrap();
    assert_eq!(d.path, "/etc");
    assert!(listed_entry("/w", "target", true).is_none());
}

#[test]
fn toggling_back_and_new_markers_keep_rows() {
    let mut t = tree();
    t.selected = 1;
    t.attach_children("/w/docs", vec![e("x.txt", "/w/docs/x.txt", false)]);
    let before = names(&t);
    assert_eq!(t.toggle_selected(), None);
    assert_eq!(t.selected, 1);
    assert_eq!(t.toggle_selected(), None);
    assert_eq!(names(&t), before);
    assert_eq!(t.selected, 1);
    let mut git = StatusMap::new();
    git.insert("/w/a.md".chars().collect(), 'A');
    t.set_git(git);
    assert_eq!(names(&t), before);
    assert_eq!(t.flat[3].git, Some('A'));
    assert_eq!(t.flat[4].git, None);
    t.selected = 4;
    t.ensure_visible(2);
    let once = t.scroll;
    t.ensure_visible(2);
    assert_eq!(t.scroll, once);
}
