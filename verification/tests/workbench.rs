use noir::events::{git_refresh_due, git_refresh_due_after_change};
use noir::git::{GitBranch, GitStatus};
use noir::theme::{PaletteId, Theme};
use noir::tree::DirEntry;
use noir::ui::{Hit, HitKind, Rect};
use noir::workbench::{Action, App, Focus, GitPaneTab, Key, KeyCode, Mods, Mouse, MouseKind};

fn plain() -> Mods {
    Mods { ctrl: false, shift: false, alt: false, other: false }
}

fn key(code: KeyCode) -> Key {
    Key { code, mods: plain() }
}

fn ch(c: char) -> Key {
    key(KeyCode::Char(c))
}

fn ctrl(c: char) -> Key {
    Key { code: KeyCode::Char(c), mods: Mods { ctrl: true, shift: false, alt: false, other: false } }
}

fn entry(name: &str, is_dir: bool) -> DirEntry {
    DirEntry { name: name.to_string(), path: format!("/w/{name}"), is_dir }
}

fn app() -> App<String> {
    App::new(
        "/w".to_string(),
        GitStatus::default(),
        vec![],
        vec![entry("src", true), entry("README.md", false)],
        Theme::new(),
    )
}

fn rect(x: u16, y: u16, width: u16, height: u16) -> Rect {
    Rect { x, y, width, height }
}

#[test]
fn starts_on_the_explorer_with_one_terminal() {
    let a = app();
    assert_eq!(a.focus, Focus::Tree);
    assert_eq!(a.terms.len(), 1);
    assert_eq!(a.terms[0].title, "zsh · 1");
    assert_eq!(a.next_term_id, 2);
    assert_eq!(a.tree_width, 34);
    assert_eq!(a.top_pct, 42);
    assert_eq!(a.status, "Press ? help · Ctrl+O search · Ctrl+P themes");
    // root, then the directory before the file
    let names: Vec<&str> = a.tree.flat.iter().map(|e| e.name.as_str()).collect();
    assert_eq!(names, vec!["w", "src", "README.md"]);
}

#[test]
fn help_opens_and_closes() {
    let mut a = app();
    assert!(a.on_key(ch('?')).is_empty());
    assert!(a.show_help);
    assert!(a.on_key(key(KeyCode::Esc)).is_empty());
    assert!(!a.show_help);
}

#[test]
fn ctrl_t_cycles_focus_with_status() {
    let mut a = app();
    a.on_key(ctrl('t'));
    assert_eq!(a.focus, Focus::Viewer);
    assert_eq!(a.status, "Editor · scroll to read · Ctrl+D diff");
    a.on_key(ctrl('t'));
    assert_eq!(a.focus, Focus::Terminal);
    assert_eq!(a.status, "Terminal · type here (Esc to leave)");
    a.on_key(ctrl('t'));
    assert_eq!(a.focus, Focus::Tree);
    assert_eq!(a.status, "Explorer · click a file to open");
}

#[test]
fn new_terminal_is_asked_for_then_added() {
    let mut a = app();
    let acts = a.on_key(ctrl('n'));
    assert_eq!(acts.len(), 1);
    match &acts[0] {
        Action::SpawnTerminal { rows, cols, title } => {
            assert_eq!((*rows, *cols), (2, 10));
            assert_eq!(title, "zsh · 2");
        }
        _ => panic!("expected a terminal to be asked for"),
    }
    assert_eq!(a.next_term_id, 3);
    a.terminal_started(2, 10, "zsh · 2".to_string(), Ok(()));
    assert_eq!(a.terms.len(), 2);
    assert_eq!(a.active_term, 1);
    assert_eq!(a.focus, Focus::Terminal);
    assert_eq!(a.status, "● zsh · 2");
    // Ctrl+W closes the active one
    let acts = a.on_key(ctrl('w'));
    assert!(matches!(acts[0], Action::CloseTerminal { index: 1 }));
    assert_eq!(a.terms.len(), 1);
    assert_eq!(a.active_term, 0);
    assert_eq!(a.status, "Closed zsh · 2");
}

#[test]
fn failed_terminal_reports_error() {
    let mut a = app();
    a.terminal_started(2, 10, "zsh · 2".to_string(), Err("no pty".to_string()));
    assert_eq!(a.terms.len(), 1);
    assert_eq!(a.status, "Failed to open terminal: no pty");
}

#[test]
fn last_terminal_is_kept() {
    let mut a = app();
    a.focus = Focus::Terminal;
    let acts = a.on_key(ctrl('w'));
    assert!(acts.is_empty());
    assert_eq!(a.terms.len(), 1);
    assert_eq!(a.status, "Keep at least one terminal");
}

#[test]
fn terminal_keys_send_bytes() {
    let mut a = app();
    a.focus = Focus::Terminal;
    let acts = a.on_key(ctrl('c'));
    match &acts[0] {
        Action::Write { index, bytes } => {
            assert_eq!(*index, 0);
            assert_eq!(bytes, &vec![3u8]);
        }
        _ => panic!("expected a write"),
    }
    let acts = a.on_key(ch('é'));
    match &acts[0] {
        Action::Write { bytes, .. } => assert_eq!(bytes, &"é".as_bytes().to_vec()),
        _ => panic!("expected a write"),
    }
    let acts = a.on_key(key(KeyCode::Up));
    match &acts[0] {
        Action::Write { bytes, .. } => assert_eq!(bytes, &b"\x1b[A".to_vec()),
        _ => panic!("expected a write"),
    }
    // Esc leaves the terminal
    assert!(a.on_key(key(KeyCode::Esc)).is_empty());
    assert_eq!(a.focus, Focus::Viewer);
    assert_eq!(a.status, "Left terminal · press Ctrl+T to return");
}

#[test]
fn exited_terminal_takes_no_input() {
    let mut a = app();
    a.focus = Focus::Terminal;
    a.pty_event(0, noir::term::PtyEvent::Exit);
    assert!(!a.terms[0].alive);
    assert!(a.on_key(ch('x')).is_empty());
}

#[test]
fn quick_open_indexes_filters_and_opens() {
    let mut a = app();
    let acts = a.on_key(ctrl('o'));
    assert!(matches!(acts[0], Action::IndexFiles));
    assert!(!a.show_search);
    a.files_indexed(vec!["/w/src/app.rs".to_string(), "/w/README.md".to_string()]);
    assert!(a.show_search);
    assert_eq!(a.status, "Search files · 2 indexed · type to filter");
    let rels: Vec<&str> = a.search_hits.iter().map(|h| h.rel.as_str()).collect();
    assert_eq!(rels, vec!["README.md", "src/app.rs"]);
    for c in ['a', 'p', 'p'] {
        a.on_key(ch(c));
    }
    assert_eq!(a.search_query, "app");
    assert_eq!(a.search_hits.len(), 1);
    a.on_key(key(KeyCode::Backspace));
    assert_eq!(a.search_query, "ap");
    a.on_key(ch('p'));
    let acts = a.on_key(key(KeyCode::Enter));
    assert!(!a.show_search);
    assert_eq!(acts.len(), 2);
    assert!(matches!(acts[0], Action::LoadTab { index: 0 }));
    match &acts[1] {
        Action::Reveal { path } => assert_eq!(path, "/w/src/app.rs"),
        _ => panic!("expected a reveal"),
    }
    assert_eq!(a.viewer.tabs[0].title, "app.rs");
    assert_eq!(a.focus, Focus::Viewer);
    assert_eq!(a.status, "● /w/src/app.rs");
}

#[test]
fn empty_search_reports_no_match() {
    let mut a = app();
    a.on_key(ctrl('o'));
    a.files_indexed(vec!["/w/a.txt".to_string()]);
    a.on_key(ch('z'));
    assert!(a.search_hits.is_empty());
    a.on_key(key(KeyCode::Enter));
    assert_eq!(a.status, "No matching files");
    a.on_key(key(KeyCode::Esc));
    assert!(!a.show_search);
    assert_eq!(a.status, "Search closed");
}

#[test]
fn theme_picker_picks_by_digit_and_enter() {
    let mut a = app();
    a.on_key(ctrl('p'));
    assert!(a.show_themes);
    assert_eq!(a.theme_cursor, 0);
    let acts = a.on_key(ch('3'));
    assert!(matches!(acts[0], Action::SaveTheme { id: PaletteId::Catppuccin }));
    assert_eq!(a.theme.current, PaletteId::Catppuccin);
    assert_eq!(a.status, "Theme · Catppuccin Mocha");
    assert!(!a.show_themes);
    a.on_key(ctrl('p'));
    assert_eq!(a.theme_cursor, 2);
    a.on_key(key(KeyCode::Up));
    a.on_key(key(KeyCode::Up));
    a.on_key(key(KeyCode::Up));
    assert_eq!(a.theme_cursor, 7);
    a.on_key(key(KeyCode::Enter));
    assert_eq!(a.theme.current, PaletteId::Solarized);
    // Ctrl+0 cycles
    let acts = a.on_key(ctrl('0'));
    assert!(matches!(acts[0], Action::SaveTheme { id: PaletteId::GitHubDark }));
    assert_eq!(a.status, "Theme · GitHub Dark");
}

fn status_of(a: &App<String>) -> GitStatus {
    let text = " M src/a.rs\n?? new.txt\n";
    assert!(noir::git::porcelain_well_formed(text));
    GitStatus::parse(a.root.as_str(), Some("main\n"), Some(text))
}

#[test]
fn git_pane_stages_and_switches_to_branches() {
    let mut a = app();
    let acts = a.on_key(ctrl('g'));
    assert!(matches!(acts[0], Action::LoadGit));
    assert!(a.show_git);
    assert_eq!(a.status, "Git · s stage · u unstage · b branches · l blame");
    let st = status_of(&a);
    let acts = a.git_loaded(st);
    assert!(matches!(acts[0], Action::LoadBranches { select_current: false }));
    assert_eq!(a.branch, "main");
    let rels: Vec<&str> = a.git_entries.iter().map(|e| e.rel.as_str()).collect();
    assert_eq!(rels, vec!["new.txt", "src/a.rs"]);
    a.on_key(ch('j'));
    assert_eq!(a.git_cursor, 1);
    let acts = a.on_key(ch('s'));
    match &acts[0] {
        Action::Stage { path, rel } => {
            assert_eq!(path, "/w/src/a.rs");
            assert_eq!(rel, "src/a.rs");
        }
        _ => panic!("expected stage"),
    }
    let acts = a.staged("src/a.rs".to_string(), Ok(()));
    assert!(matches!(acts[0], Action::LoadGit));
    assert_eq!(a.status, "Staged · src/a.rs");
    a.staged("src/a.rs".to_string(), Err("locked".to_string()));
    assert_eq!(a.status, "Stage failed · locked");
    let acts = a.on_key(key(KeyCode::Tab));
    assert!(matches!(acts[0], Action::LoadBranches { select_current: true }));
    assert_eq!(a.git_tab, GitPaneTab::Branches);
    let bs = vec![
        GitBranch { name: "dev".to_string(), current: false },
        GitBranch { name: "main".to_string(), current: true },
    ];
    a.branches_loaded(bs, true);
    assert_eq!(a.git_cursor, 1);
    a.on_key(key(KeyCode::Enter));
    assert_eq!(a.status, "Already on · main");
    a.on_key(ch('k'));
    let acts = a.on_key(key(KeyCode::Enter));
    match &acts[0] {
        Action::Checkout { name } => assert_eq!(name, "dev"),
        _ => panic!("expected checkout"),
    }
    a.checked_out("dev".to_string(), Err("error: would be overwritten\nAborting".to_string()));
    assert_eq!(a.status, "Checkout failed · error: would be overwritten");
    a.on_key(key(KeyCode::Esc));
    assert!(!a.show_git);
}

#[test]
fn git_key_with_nothing_selected() {
    let mut a = app();
    a.on_key(ctrl('g'));
    assert!(a.on_key(ch('s')).is_empty());
    assert_eq!(a.status, "No file selected");
    a.on_key(ch('r'));
    assert_eq!(a.status, "Git refreshed");
}

#[test]
fn explorer_keys_move_and_open() {
    let mut a = app();
    a.areas.tree_inner = rect(1, 2, 30, 10);
    a.on_key(key(KeyCode::Down));
    assert_eq!(a.tree.selected, 1);
    // src is a directory whose entries are still to be read
    let acts = a.on_key(key(KeyCode::Enter));
    match &acts[0] {
        Action::LoadDir { path, .. } => assert_eq!(path, "/w/src"),
        _ => panic!("expected a directory load"),
    }
    a.dir_loaded(
        "/w/src".to_string(),
        vec![DirEntry { name: "main.rs".to_string(), path: "/w/src/main.rs".to_string(), is_dir: false }],
        Some(noir::workbench::AfterLoad::Toggle),
    );
    assert_eq!(a.tree.flat.len(), 4);
    assert!(a.tree.flat[1].expanded);
    a.on_key(key(KeyCode::End));
    assert_eq!(a.tree.selected, 3);
    a.on_key(key(KeyCode::Home));
    assert_eq!(a.tree.selected, 0);
}

#[test]
fn splitter_drag_and_release() {
    let mut a = app();
    a.areas.main = rect(0, 1, 100, 30);
    a.hits = vec![Hit { kind: HitKind::VSplit, area: rect(34, 1, 1, 10) }];
    a.on_mouse(Mouse { kind: MouseKind::Down, column: 34, row: 5 });
    assert!(a.drag.is_some());
    assert!(a.pointer_on);
    a.on_mouse(Mouse { kind: MouseKind::Drag, column: 50, row: 5 });
    assert_eq!(a.tree_width, 50);
    a.on_mouse(Mouse { kind: MouseKind::Drag, column: 5, row: 5 });
    assert_eq!(a.tree_width, 18);
    a.on_mouse(Mouse { kind: MouseKind::Drag, column: 99, row: 5 });
    assert_eq!(a.tree_width, 76);
    a.on_mouse(Mouse { kind: MouseKind::Up, column: 99, row: 5 });
    assert!(a.drag.is_none());
    assert_eq!(a.status, "layout · explorer 76 cols · top 42%");
}

#[test]
fn clicks_focus_panes_and_tabs() {
    let mut a = app();
    a.areas.term_area = rect(0, 20, 100, 10);
    a.on_mouse(Mouse { kind: MouseKind::Down, column: 3, row: 25 });
    assert_eq!(a.focus, Focus::Terminal);
    a.hits = vec![Hit { kind: HitKind::ViewerBody, area: rect(40, 2, 50, 10) }];
    a.on_mouse(Mouse { kind: MouseKind::Down, column: 45, row: 3 });
    assert_eq!(a.focus, Focus::Viewer);
    // hovering a body shows no pointer
    a.on_mouse(Mouse { kind: MouseKind::Moved, column: 45, row: 3 });
    assert!(!a.pointer_on);
    assert_eq!(a.hover, Some(HitKind::ViewerBody));
}

#[test]
fn wheel_over_terminal_sends_arrows() {
    let mut a = app();
    a.areas.term_body = rect(0, 20, 100, 10);
    let acts = a.on_mouse(Mouse { kind: MouseKind::ScrollDown, column: 1, row: 21 });
    match &acts[0] {
        Action::Write { bytes, .. } => assert_eq!(bytes, &b"\x1b[B".to_vec()),
        _ => panic!("expected a write"),
    }
}

#[test]
fn watcher_reload_marks_index_stale() {
    let mut a = app();
    a.open_file("/w/README.md".to_string());
    let acts = a.files_changed(vec!["/w/README.md".to_string()]);
    assert!(acts.iter().any(|x| matches!(x, Action::LoadTab { index: 0 })));
    assert_eq!(a.status, "● Reloaded from disk");
    assert!(a.file_index.built_at.is_none());
}

#[test]
fn terminals_follow_the_body_size() {
    let mut a = app();
    a.areas.term_body = rect(0, 0, 120, 30);
    let changed = a.fit_terminals();
    assert_eq!(changed, vec![(0, 30, 120)]);
    assert!(a.fit_terminals().is_empty());
}

#[test]
fn git_status_is_read_again_after_three_seconds() {
    assert!(git_refresh_due(0).is_empty());
    assert!(git_refresh_due(3_000_000_000).is_empty());
    let due = git_refresh_due(3_000_000_001);
    assert_eq!(due.len(), 1);
    assert!(matches!(due[0], Action::LoadGit));
}

#[test]
fn git_status_is_read_again_after_a_change() {
    assert!(!git_refresh_due_after_change(400_000_000));
    assert!(git_refresh_due_after_change(400_000_001));
}

#[test]
fn tab_clicks_select_and_targets_are_checked() {
    let mut a = app();
    a.on_key(Key { code: KeyCode::Char('n'), mods: Mods { ctrl: true, shift: false, alt: false, other: false } });
    a.terminal_started(20, 80, "zsh · 2".to_string(), Ok(()));
    a.hits = vec![Hit { kind: HitKind::TermTab { index: 0 }, area: rect(0, 20, 10, 1) }];
    assert!(a.tab_hits_ok());
    a.on_mouse(Mouse { kind: MouseKind::Down, column: 3, row: 20 });
    assert_eq!(a.active_term, 0);
    assert_eq!(a.focus, Focus::Terminal);
    a.hits = vec![Hit { kind: HitKind::FileTab { index: 0 }, area: rect(0, 3, 10, 1) }];
    assert!(!a.tab_hits_ok());
}
