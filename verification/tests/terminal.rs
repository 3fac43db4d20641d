use noir::screen::{Paint, TermColor};
use noir::term::{char_bytes, PtyEvent, TermPane};
use noir::theme::Palette;
use noir::watch::{changed_events, FsEventKind, WatchEvent};

#[test]
fn sizes_have_a_floor() {
    let t = TermPane::new(1, 3, "t".to_string());
    assert_eq!((t.rows, t.cols), (2, 10));
    let mut t = TermPane::new(20, 80, "t".to_string());
    assert!(!t.resize(20, 80));
    assert!(t.resize(30, 100));
    assert_eq!((t.rows, t.cols), (30, 100));
    assert!(t.resize(0, 0));
    assert_eq!((t.rows, t.cols), (2, 10));
}

#[test]
fn exit_marks_terminal_dead() {
    let mut t = TermPane::new(2, 10, "t".to_string());
    t.accept(PtyEvent::Output(b"x".to_vec()));
    assert!(t.alive);
    t.accept(PtyEvent::Exit);
    assert!(!t.alive);
}

#[test]
fn utf8_of_typed_characters() {
    assert_eq!(char_bytes('a'), vec![0x61]);
    assert_eq!(char_bytes('é'), "é".as_bytes().to_vec());
    assert_eq!(char_bytes('€'), "€".as_bytes().to_vec());
    assert_eq!(char_bytes('😀'), "😀".as_bytes().to_vec());
}

#[test]
fn screen_rows_with_caret() {
    let mut t = TermPane::new(2, 10, "t".to_string());
    t.accept(PtyEvent::Output(b"hi\x1b[1;31mX".to_vec()));
    let p = Palette::github_dark();
    let rows = t.lines(&p, 10, 3, true, true);
    assert_eq!(rows.len(), 3);
    let first: Vec<&str> = rows[0].iter().map(|s| s.text.as_str()).collect();
    assert_eq!(first, vec!["h", "i", "X", " ", " ", " ", " ", " ", " ", " "]);
    assert_eq!(rows[0][0].fg, Paint::Rgb(p.fg));
    assert_eq!(rows[0][0].bg, Paint::Rgb(p.panel));
    assert_eq!(rows[0][2].fg, Paint::Indexed(1));
    assert!(rows[0][2].bold);
    // the caret sits after the X
    assert_eq!(t.cursor_pos(), (0, 3));
    assert_eq!(rows[0][3].bg, Paint::Rgb(p.accent_glow));
    assert!(rows[0][3].bold);
    // below the screen: one blank span as wide as the body
    assert_eq!(rows[2].len(), 1);
    assert_eq!(rows[2][0].text, " ".repeat(10));
    let plain = t.lines(&p, 10, 3, true, false);
    assert_eq!(plain[0][3].bg, Paint::Rgb(p.panel));
    let _ = TermColor::Default;
}

#[test]
fn wider_body_is_padded() {
    let t = TermPane::new(2, 10, "t".to_string());
    let p = Palette::nord();
    let rows = t.lines(&p, 12, 2, false, false);
    assert_eq!(rows[0].len(), 12);
    assert_eq!(rows[1][11].bg, Paint::Rgb(p.panel));
}

#[test]
fn watcher_passes_changes_only() {
    let ev = changed_events(FsEventKind::Modify, vec!["/w/a".to_string(), "/w/b".to_string()]);
    assert_eq!(ev.len(), 2);
    match &ev[1] {
        WatchEvent::Changed(p) => assert_eq!(p, "/w/b"),
    }
    assert!(changed_events(FsEventKind::Access, vec!["/w/a".to_string()]).is_empty());
    assert_eq!(changed_events(FsEventKind::Remove, vec!["/w/a".to_string()]).len(), 1);
}

#[test]
fn snapshot_takes_the_screen_cells_and_cursor() {
    let mut t = TermPane::new(2, 10, "t".to_string());
    t.accept(PtyEvent::Output(b"hi".to_vec()));
    let g = t.snapshot(4, 5);
    // the screen has 2 rows; the body is 4 columns wide
    assert_eq!(g.cells.len(), 2);
    assert_eq!(g.cols, 4);
    assert_eq!(g.cells[0].len(), 4);
    assert_eq!(g.cells[0][0].as_ref().map(|c| c.text.as_str()), Some("h"));
    assert_eq!(g.cells[0][1].as_ref().map(|c| c.fg), Some(TermColor::Default));
    assert_eq!((g.cursor_row, g.cursor_col), (0, 2));
    assert_eq!(t.cursor_pos(), (0, 2));
    let wide = t.snapshot(20, 1);
    assert_eq!((wide.cells.len(), wide.cols), (1, 10));
}
