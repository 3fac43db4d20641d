use noir::ui::{line_window, splitter_label, 
    code_role, drag_top_pct, drag_tree_width, file_tab_widths, help_popup, hit_at, list_window, marker_role, over_button,
    point_in, row_prefix, scroll_thumb, search_popup, strip_hits, themes_popup, top_height, Hit, HitKind, Rect, Role,
};

fn rect(x: u16, y: u16, width: u16, height: u16) -> Rect {
    Rect { x, y, width, height }
}

#[test]
fn points_inside_rectangles() {
    let r = rect(2, 3, 4, 2);
    assert!(point_in(r, 2, 3));
    assert!(point_in(r, 5, 4));
    assert!(!point_in(r, 6, 4));
    assert!(!point_in(r, 1, 3));
    assert!(!point_in(rect(0, 0, 0, 5), 0, 0));
}

#[test]
fn later_targets_win() {
    let hits = vec![
        Hit { kind: HitKind::ViewerBody, area: rect(0, 0, 10, 10) },
        Hit { kind: HitKind::FileClose { index: 0 }, area: rect(2, 2, 5, 1) },
    ];
    assert_eq!(hit_at(&hits, 3, 2).map(|h| h.kind), Some(HitKind::FileClose { index: 0 }));
    assert_eq!(hit_at(&hits, 3, 5).map(|h| h.kind), Some(HitKind::ViewerBody));
    assert!(hit_at(&hits, 30, 5).is_none());
    assert!(over_button(&hits, 3, 2));
    assert!(!over_button(&hits, 3, 5));
}

#[test]
fn splitters_clamp() {
    let main = rect(10, 1, 100, 41);
    assert_eq!(drag_tree_width(main, 50), 40);
    assert_eq!(drag_tree_width(main, 0), 18);
    assert_eq!(drag_tree_width(main, 200), 76);
    assert_eq!(drag_top_pct(main, 21), 48);
    assert_eq!(drag_top_pct(main, 0), 20);
    assert_eq!(drag_top_pct(main, 60), 80);
    // a narrow main area keeps the minimum width
    assert_eq!(drag_tree_width(rect(0, 0, 30, 10), 25), 18);
}

#[test]
fn top_height_splits_main_area() {
    assert_eq!(top_height(41, 42), 16);
    assert_eq!(top_height(41, 5), 8);
    assert_eq!(top_height(41, 95), 32);
    assert_eq!(top_height(11, 50), 5);
}

#[test]
fn popups_are_centred() {
    let screen = rect(0, 0, 100, 40);
    assert_eq!(help_popup(screen), rect(14, 6, 72, 28));
    assert_eq!(help_popup(rect(0, 0, 30, 10)), rect(0, 0, 40, 16));
    assert_eq!(search_popup(screen, 40), rect(11, 8, 78, 23));
    assert_eq!(search_popup(screen, 0), rect(11, 15, 78, 10));
    assert_eq!(themes_popup(screen, 8), rect(22, 13, 56, 14));
}

#[test]
fn list_window_keeps_cursor_centred() {
    assert_eq!(list_window(0, 5, 40), 0);
    assert_eq!(list_window(10, 5, 40), 8);
    assert_eq!(list_window(39, 5, 40), 35);
    assert_eq!(list_window(2, 10, 4), 0);
}

#[test]
fn thumb_geometry() {
    assert_eq!(scroll_thumb(100, 10, 0, 10), (1, 0));
    assert_eq!(scroll_thumb(100, 10, 90, 10), (1, 9));
    assert_eq!(scroll_thumb(20, 10, 5, 10), (5, 2));
}

#[test]
fn roles_of_markers_and_codes() {
    assert_eq!(marker_role(Some('•')), Role::Modified);
    assert_eq!(marker_role(Some('?')), Role::Added);
    assert_eq!(marker_role(Some('D')), Role::Deleted);
    assert_eq!(marker_role(None), Role::Plain);
    assert_eq!(code_role('A', 'M'), Role::Modified);
    assert_eq!(code_role('?', '?'), Role::Added);
    assert_eq!(code_role('D', ' '), Role::Deleted);
    assert_eq!(code_role(' ', ' '), Role::Plain);
}

#[test]
fn row_prefixes() {
    assert_eq!(row_prefix(0, true, true), "▾ ");
    assert_eq!(row_prefix(1, true, false), "  ▸ ");
    assert_eq!(row_prefix(2, false, false), "      ");
}

#[test]
fn tab_strip_targets() {
    let widths = file_tab_widths(&vec!["a.rs".to_string(), "lib.rs".to_string()]);
    assert_eq!(widths, vec![8, 10]);
    let (hits, end) = strip_hits(&widths, 1, 4, 1, false);
    assert_eq!(hits.len(), 4);
    assert_eq!(hits[0], Hit { kind: HitKind::FileTab { index: 0 }, area: rect(1, 4, 8, 1) });
    assert_eq!(hits[1], Hit { kind: HitKind::FileClose { index: 0 }, area: rect(9, 4, 5, 1) });
    assert_eq!(hits[2], Hit { kind: HitKind::FileTab { index: 1 }, area: rect(15, 4, 10, 1) });
    assert_eq!(hits[3], Hit { kind: HitKind::FileClose { index: 1 }, area: rect(25, 4, 5, 1) });
    assert_eq!(end, 31);
}

#[test]
fn splitter_labels() {
    assert_eq!(splitter_label(4, false), "════");
    let hint = "  ↕ drag to resize terminal  ";
    assert_eq!(splitter_label(29, true), hint);
    assert_eq!(splitter_label(32, true), format!("═{}══", hint));
    assert_eq!(splitter_label(5, true), "  ↕ d");
    assert_eq!(splitter_label(0, true), "");
}

#[test]
fn viewer_line_windows() {
    assert_eq!(line_window(0, 10, 5), (0, 5));
    assert_eq!(line_window(3, 10, 100), (3, 13));
    assert_eq!(line_window(200, 10, 100), (100, 100));
}
