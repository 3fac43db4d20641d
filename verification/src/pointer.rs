//! The mouse: hovering, clicks on tabs, rows and bodies, dragging the
//! splitters, and the wheel.
use vstd::prelude::*;

use crate::text::{decimal, decimal_string, push_str};
use crate::tree::FileTree;
use crate::ui::{
    drag_tree_width, drag_top_pct, dragged_pct, dragged_width, hit_at, inside, is_body, on_button, over_button,
    point_in, top_hit, Hit, HitKind,
};
use crate::viewer::FileViewer;
use crate::workbench::{scroll_in_range, scroll_to_show, views, Action, ActionV, App, DragKind, Focus, GitPaneTab, Mouse, MouseKind};

verus! {

/// `a + b`, or the largest `usize` when that overflows.
pub open spec fn sat_add(a: int, b: int) -> int {
    if a + b > usize::MAX {
        usize::MAX as int
    } else {
        a + b
    }
}

/// What the wheel sends to a terminal: the Up or Down arrow key.
pub open spec fn arrow_bytes(up: bool) -> Seq<u8> {
    Seq::<u8>::empty().push(0x1bu8).push(0x5bu8).push(if up { 0x41u8 } else { 0x42u8 })
}

/// The status line once a splitter is let go.
pub open spec fn layout_status(width: u16, pct: u16) -> Seq<char> {
    "layout · explorer "@ + decimal(width as nat) + " cols · top "@ + decimal(pct as nat) + "%"@
}

impl<L> App<L> {
    /// The row of the explorer column under `row`, counted from the top of
    /// its list, when `(col, row)` is inside it.
    pub open spec fn hover_row(a: Self, col: int, row: int) -> Option<usize> {
        if inside(a.areas.tree_inner, col, row) {
            let scroll = if a.show_git { a.git_scroll as int } else { a.tree.scroll as int };
            Some(sat_add(scroll, row - a.areas.tree_inner.y) as usize)
        } else {
            None
        }
    }

    /// Whether `(col, row)` is on a splitter, the explorer's list or a target
    /// other than a body.
    pub open spec fn clickable_at(a: Self, col: int, row: int) -> bool {
        ||| inside(a.areas.v_split, col, row)
        ||| inside(a.areas.h_split, col, row)
        ||| inside(a.areas.tree_inner, col, row)
        ||| on_button(a.hits@, col, row)
    }

    fn hover_row_at(&self, col: u16, row: u16) -> (r: Option<usize>)
        ensures
            r == Self::hover_row(*self, col as int, row as int),
    {
        if point_in(self.areas.tree_inner, col, row) {
            let scroll = if self.show_git { self.git_scroll } else { self.tree.scroll };
            let y = (row - self.areas.tree_inner.y) as usize;
            Some(scroll.saturating_add(y))
        } else {
            None
        }
    }

    fn is_clickable_at(&self, col: u16, row: u16) -> (r: bool)
        ensures
            r == Self::clickable_at(*self, col as int, row as int),
    {
        point_in(self.areas.v_split, col, row) || point_in(self.areas.h_split, col, row) || point_in(
            self.areas.tree_inner,
            col,
            row,
        ) || over_button(&self.hits, col, row)
    }

    /// After each frame: the pointer shape and the hovered explorer row follow
    /// the last mouse position over what was just drawn.
    pub fn sync_pointer_from_mouse(&mut self)
        requires
            old(self).wf(),
        ensures
            final(self).wf(),
            old(self).drag is Some ==> *final(self) == (App { pointer_on: true, ..*old(self) }),
            old(self).drag is None ==> *final(self) == (App {
                pointer_on: Self::clickable_at(*old(self), old(self).mouse_col as int, old(self).mouse_row as int),
                tree_hover_row: Self::hover_row(*old(self), old(self).mouse_col as int, old(self).mouse_row as int),
                ..*old(self)
            }),
    {
        if self.drag.is_some() {
            self.pointer_on = true;
            return;
        }
        let col = self.mouse_col;
        let row = self.mouse_row;
        let over = self.is_clickable_at(col, row);
        let hover = self.hover_row_at(col, row);
        self.pointer_on = over;
        self.tree_hover_row = hover;
    }

    /// The mouse moved to `(col, row)`, as `mouse_moved` handles it.
    pub open spec fn moved_post(old: Self, new: Self, col: int, row: int) -> bool {
        match old.drag {
            Some(DragKind::VSplit) => new == (App { tree_width: dragged_width(old.areas.main, col) as u16, pointer_on: true, ..old }),
            Some(DragKind::HSplit) => new == (App { top_pct: dragged_pct(old.areas.main, row) as u16, pointer_on: true, ..old }),
            None => {
                let hit = top_hit(old.hits@, col, row);
                let clickable = hit matches Some(h) && !is_body(h.kind);
                new == (App {
                    pointer_on: clickable || Self::clickable_at(old, col, row),
                    hover: match hit {
                        Some(h) => Some(h.kind),
                        None => None,
                    },
                    tree_hover_row: Self::hover_row(old, col, row),
                    ..old
                })
            },
        }
    }

    /// The mouse moved: a splitter being dragged follows it; otherwise the
    /// pointer shape, the hovered target and the hovered explorer row do.
    fn mouse_moved(&mut self, col: u16, row: u16)
        requires
            old(self).wf(),
        ensures
            final(self).wf(),
            Self::moved_post(*old(self), *final(self), col as int, row as int),
    {
        match self.drag {
            Some(DragKind::VSplit) => {
                self.tree_width = drag_tree_width(self.areas.main, col);
                self.pointer_on = true;
            },
            Some(DragKind::HSplit) => {
                self.top_pct = drag_top_pct(self.areas.main, row);
                self.pointer_on = true;
            },
            None => {
                let hit = hit_at(&self.hits, col, row);
                let clickable = match hit {
                    Some(h) => match h.kind {
                        HitKind::ViewerBody | HitKind::TermBody => false,
                        _ => true,
                    },
                    None => false,
                };
                let over = self.is_clickable_at(col, row);
                let hover_row = self.hover_row_at(col, row);
                self.pointer_on = clickable || over;
                self.hover = match hit {
                    Some(h) => Some(h.kind),
                    None => None,
                };
                self.tree_hover_row = hover_row;
            },
        }
    }

    /// The left button was let go: a drag ends and the new layout is shown.
    pub fn mouse_up(&mut self)
        requires
            old(self).wf(),
        ensures
            final(self).wf(),
            old(self).drag is None ==> *final(self) == *old(self),
            old(self).drag is Some ==> *final(self) == (App { drag: None, status: final(self).status, ..*old(self) })
                && final(self).status@ == layout_status(old(self).tree_width, old(self).top_pct),
    {
        if self.drag.is_some() {
            self.drag = None;
            let mut st = String::from_str("layout · explorer ");
            push_str(&mut st, decimal_string(self.tree_width as u64).as_str());
            push_str(&mut st, " cols · top ");
            push_str(&mut st, decimal_string(self.top_pct as u64).as_str());
            push_str(&mut st, "%");
            self.status = st;
        }
    }

    /// The mouse moved with the left button held: a splitter being dragged
    /// follows it.
    pub fn mouse_drag(&mut self, col: u16, row: u16)
        requires
            old(self).wf(),
        ensures
            final(self).wf(),
            *final(self) == match old(self).drag {
                Some(DragKind::VSplit) => App { tree_width: dragged_width(old(self).areas.main, col as int) as u16, ..*old(self) },
                Some(DragKind::HSplit) => App { top_pct: dragged_pct(old(self).areas.main, row as int) as u16, ..*old(self) },
                None => *old(self),
            },
    {
        match self.drag {
            Some(DragKind::VSplit) => {
                self.tree_width = drag_tree_width(self.areas.main, col);
            },
            Some(DragKind::HSplit) => {
                self.top_pct = drag_top_pct(self.areas.main, row);
            },
            None => {},
        }
    }
}


impl<L> App<L> {
    /// A click on the target `kind` at row `row`, as `click` handles it.
    pub open spec fn hit_post(old: Self, new: Self, kind: HitKind, row: int, r: Seq<ActionV>) -> bool {
        match kind {
            HitKind::VSplit => new == (App { drag: Some(DragKind::VSplit), pointer_on: true, ..old }) && r.len() == 0,
            HitKind::HSplit => new == (App { drag: Some(DragKind::HSplit), pointer_on: true, ..old }) && r.len() == 0,
            HitKind::FileTab { index } => r.len() == 0 && new == (App {
                viewer: FileViewer { active: index, ..old.viewer },
                focus: Focus::Viewer,
                ..old
            }),
            HitKind::FileClose { index } => {
                &&& r.len() == 0
                &&& new.status@ == "Closed file tab"@
                &&& FileViewer::<L>::closed_at(old.viewer, new.viewer, index, index < old.viewer.tabs@.len())
                &&& new == (App { viewer: new.viewer, status: new.status, ..old })
            },
            HitKind::TermTab { index } => r.len() == 0 && new == (App {
                active_term: index,
                focus: Focus::Terminal,
                ..old
            }),
            HitKind::TermClose { index } => Self::terminal_closed(old, new, index, r),
            HitKind::TermNew => Self::terminal_added(old, new, r),
            HitKind::TreeRow => {
                let y = if row > old.areas.tree_inner.y { row - old.areas.tree_inner.y } else { 0 };
                let at = App { focus: Focus::Tree, ..old };
                if old.show_git {
                    let index = sat_add(old.git_scroll as int, y);
                    if index < old.git_len() {
                        let picked = App { git_cursor: index as usize, ..at };
                        match old.git_tab {
                            GitPaneTab::Changes => Self::file_opened(
                                picked,
                                new,
                                old.git_entries@[index].path@,
                                r,
                            ),
                            GitPaneTab::Branches => Self::checkout_post(picked, new, r),
                        }
                    } else {
                        new == at && r.len() == 0
                    }
                } else {
                    App::<L>::click_post(at, new, sat_add(old.tree.scroll as int, y) as usize, r)
                }
            },
            HitKind::ViewerBody => new == (App { focus: Focus::Viewer, ..old }) && r.len() == 0,
            HitKind::TermBody => new == (App { focus: Focus::Terminal, ..old }) && r.len() == 0,
        }
    }

    fn click_file_tab(&mut self, index: usize) -> (r: Vec<Action>)
        requires
            old(self).wf(),
            index < old(self).viewer.tabs@.len(),
        ensures
            final(self).wf(),
            Self::hit_post(*old(self), *final(self), HitKind::FileTab { index }, 0, views(r@)),
    {
        self.viewer.active = index;
        self.focus = Focus::Viewer;
        Vec::new()
    }

    fn click_file_close(&mut self, index: usize) -> (r: Vec<Action>)
        requires
            old(self).wf(),
        ensures
            final(self).wf(),
            Self::hit_post(*old(self), *final(self), HitKind::FileClose { index }, 0, views(r@)),
    {
        self.viewer.close_at(index);
        self.status = String::from_str("Closed file tab");
        Vec::new()
    }

    fn click_term_tab(&mut self, index: usize) -> (r: Vec<Action>)
        requires
            old(self).wf(),
            index < old(self).terms@.len(),
        ensures
            final(self).wf(),
            Self::hit_post(*old(self), *final(self), HitKind::TermTab { index }, 0, views(r@)),
    {
        self.active_term = index;
        self.focus = Focus::Terminal;
        Vec::new()
    }

    fn click_tree_row(&mut self, row: u16) -> (r: Vec<Action>)
        requires
            old(self).wf(),
        ensures
            final(self).wf(),
            Self::hit_post(*old(self), *final(self), HitKind::TreeRow, row as int, views(r@)),
    {
        self.focus = Focus::Tree;
        let y = row.saturating_sub(self.areas.tree_inner.y) as usize;
        if self.show_git {
            let index = self.git_scroll.saturating_add(y);
            let len = self.git_list_len();
            if index < len {
                self.git_cursor = index;
                match self.git_tab {
                    GitPaneTab::Changes => self.open_selected_git_file(),
                    GitPaneTab::Branches => self.checkout_selected_branch(),
                }
            } else {
                Vec::new()
            }
        } else {
            let index = self.tree.scroll.saturating_add(y);
            self.tree_click(index)
        }
    }

    /// A left click on the target `kind` at row `row`.
    fn click(&mut self, kind: HitKind, row: u16) -> (r: Vec<Action>)
        requires
            old(self).wf(),
            old(self).kind_in_range(kind),
        ensures
            final(self).wf(),
            Self::hit_post(*old(self), *final(self), kind, row as int, views(r@)),
    {
        match kind {
            HitKind::VSplit => {
                self.drag = Some(DragKind::VSplit);
                self.pointer_on = true;
                Vec::new()
            },
            HitKind::HSplit => {
                self.drag = Some(DragKind::HSplit);
                self.pointer_on = true;
                Vec::new()
            },
            HitKind::FileTab { index } => self.click_file_tab(index),
            HitKind::FileClose { index } => self.click_file_close(index),
            HitKind::TermTab { index } => self.click_term_tab(index),
            HitKind::TermClose { index } => self.close_terminal_at(index),
            HitKind::TermNew => self.add_terminal(),
            HitKind::TreeRow => self.click_tree_row(row),
            HitKind::ViewerBody => {
                self.focus = Focus::Viewer;
                Vec::new()
            },
            HitKind::TermBody => {
                self.focus = Focus::Terminal;
                Vec::new()
            },
        }
    }

    /// The left button went down at `(col, row)`, as `mouse_down` handles it.
    pub open spec fn down_post(old: Self, new: Self, col: int, row: int, r: Seq<ActionV>) -> bool {
        match top_hit(old.hits@, col, row) {
            Some(h) => Self::hit_post(old, new, h.kind, row, r),
            None => r.len() == 0 && new == (App {
                focus: if inside(old.areas.term_area, col, row) {
                    Focus::Terminal
                } else if inside(old.areas.tree_area, col, row) {
                    Focus::Tree
                } else if inside(old.areas.viewer_area, col, row) {
                    Focus::Viewer
                } else {
                    old.focus
                },
                ..old
            }),
        }
    }

    /// The left button went down: on a target drawn last frame it acts on
    /// it, else the pane under the pointer takes focus.
    fn mouse_down(&mut self, col: u16, row: u16) -> (r: Vec<Action>)
        requires
            old(self).wf(),
            old(self).tab_hits_in_range(),
        ensures
            final(self).wf(),
            Self::down_post(*old(self), *final(self), col as int, row as int, views(r@)),
    {
        proof {
            lemma_top_hit_in(self.hits@, col as int, row as int);
        }
        match hit_at(&self.hits, col, row) {
            Some(h) => {
                proof {
                    let i = choose|i: int| 0 <= i < self.hits@.len() && self.hits@[i] == h;
                    assert(self.kind_in_range(self.hits@[i].kind));
                }
                self.click(h.kind, row)
            },
            None => {
                if point_in(self.areas.term_area, col, row) {
                    self.focus = Focus::Terminal;
                } else if point_in(self.areas.tree_area, col, row) {
                    self.focus = Focus::Tree;
                } else if point_in(self.areas.viewer_area, col, row) {
                    self.focus = Focus::Viewer;
                }
                Vec::new()
            },
        }
    }

    /// The wheel turned at `(col, row)` (`up` or down), as `wheel` handles it.
    pub open spec fn wheel_post(old: Self, new: Self, up: bool, col: int, row: int, r: Seq<ActionV>) -> bool {
        let a = old.areas;
        if inside(a.viewer_body, col, row) || inside(a.viewer_area, col, row) {
            let h = if a.viewer_body.height > 1 { a.viewer_body.height } else { 1 };
            &&& FileViewer::<L>::scrolled_by(old.viewer, new.viewer, if up { -1i32 } else { 1i32 }, h)
            &&& new == (App { viewer: new.viewer, focus: Focus::Viewer, ..old })
            &&& r.len() == 0
        } else if inside(a.tree_inner, col, row) || inside(a.tree_area, col, row) {
            let h = if a.tree_inner.height > 1 { a.tree_inner.height as int } else { 1 };
            let at = App { focus: Focus::Tree, ..old };
            &&& r.len() == 0
            &&& old.show_git ==> {
                let c = if up {
                    if old.git_cursor > 0 { old.git_cursor - 1 } else { old.git_cursor as int }
                } else {
                    if old.git_cursor + 1 < old.git_len() { old.git_cursor + 1 } else { old.git_cursor as int }
                };
                new == (App { git_cursor: c as usize, git_scroll: scroll_to_show(c, old.git_scroll as int, h) as usize, ..at })
            }
            &&& !old.show_git ==> Self::tree_scrolled(at, new, if up { -1isize } else { 1isize }, h as usize)
        } else if inside(a.term_body, col, row) {
            new == old && r == if old.terms@[old.active_term as int].alive {
                seq![
                    ActionV::Write {
                        index: old.active_term,
                        bytes: arrow_bytes(up),
                    },
                ]
            } else {
                Seq::empty()
            }
        } else {
            new == old && r.len() == 0
        }
    }

    /// The wheel: over the viewer it scrolls the file, over the explorer the
    /// list (the git pane moves its cursor), over the terminal it sends an
    /// arrow key.
    #[verifier::rlimit(40)]
    fn wheel(&mut self, up: bool, col: u16, row: u16) -> (r: Vec<Action>)
        requires
            old(self).wf(),
        ensures
            final(self).wf(),
            Self::wheel_post(*old(self), *final(self), up, col as int, row as int, views(r@)),
    {
        let a = self.areas;
        if point_in(a.viewer_body, col, row) || point_in(a.viewer_area, col, row) {
            self.focus = Focus::Viewer;
            let h = if a.viewer_body.height > 1 { a.viewer_body.height } else { 1 };
            self.viewer.scroll_by(if up { -1 } else { 1 }, h);
            Vec::new()
        } else if point_in(a.tree_inner, col, row) || point_in(a.tree_area, col, row) {
            self.focus = Focus::Tree;
            let h: usize = if a.tree_inner.height > 1 { a.tree_inner.height as usize } else { 1 };
            if self.show_git {
                self.wheel_git(up, h);
            } else {
                self.tree_scroll(if up { -1 } else { 1 }, h);
            }
            Vec::new()
        } else if point_in(a.term_body, col, row) {
            if self.terms[self.active_term].alive {
                let bytes = if up { vec![0x1bu8, 0x5bu8, 0x41u8] } else { vec![0x1bu8, 0x5bu8, 0x42u8] };
                assert(bytes@ =~= arrow_bytes(up));
                let r = vec![Action::Write { index: self.active_term, bytes }];
                assert(views(r@) =~= seq![r@[0]@]);
                r
            } else {
                let r: Vec<Action> = Vec::new();
                assert(views(r@) =~= Seq::<ActionV>::empty());
                r
            }
        } else {
            Vec::new()
        }
    }

    /// The wheel over the git pane moves its cursor by one row.
    fn wheel_git(&mut self, up: bool, h: usize)
        requires
            old(self).wf(),
        ensures
            final(self).wf(),
            ({
                let c = if up {
                    if old(self).git_cursor > 0 { old(self).git_cursor - 1 } else { old(self).git_cursor as int }
                } else {
                    if old(self).git_cursor + 1 < old(self).git_len() { old(self).git_cursor + 1 } else { old(self).git_cursor as int }
                };
                *final(self) == (App {
                    git_cursor: c as usize,
                    git_scroll: scroll_to_show(c, old(self).git_scroll as int, h as int) as usize,
                    ..*old(self)
                })
            }),
    {
        let len = self.git_list_len();
        if up {
            if self.git_cursor > 0 {
                self.git_cursor = self.git_cursor - 1;
            }
        } else if self.git_cursor + 1 < len {
            self.git_cursor = self.git_cursor + 1;
        }
        self.ensure_git_visible(h);
    }

    /// A mouse event, as `on_mouse` handles it.
    pub open spec fn mouse_post(old: Self, new: Self, m: Mouse, r: Seq<ActionV>) -> bool {
        let at = App { mouse_col: m.column, mouse_row: m.row, ..old };
        let col = m.column as int;
        let row = m.row as int;
        match m.kind {
            MouseKind::Moved => Self::moved_post(at, new, col, row) && r.len() == 0,
            MouseKind::Down => Self::down_post(at, new, col, row, r),
            MouseKind::Up => r.len() == 0 && (at.drag is None ==> new == at) && (at.drag is Some ==> new == (App {
                drag: None,
                status: new.status,
                ..at
            }) && new.status@ == layout_status(at.tree_width, at.top_pct)),
            MouseKind::Drag => r.len() == 0 && new == match at.drag {
                Some(DragKind::VSplit) => App { tree_width: dragged_width(at.areas.main, col) as u16, ..at },
                Some(DragKind::HSplit) => App { top_pct: dragged_pct(at.areas.main, row) as u16, ..at },
                None => at,
            },
            MouseKind::ScrollUp => Self::wheel_post(at, new, true, col, row, r),
            MouseKind::ScrollDown => Self::wheel_post(at, new, false, col, row, r),
            MouseKind::Other => new == at && r.len() == 0,
        }
    }

    /// A mouse event: the position is remembered, then the event acts.
    pub fn on_mouse(&mut self, m: Mouse) -> (r: Vec<Action>)
        requires
            old(self).wf(),
            old(self).tab_hits_in_range(),
        ensures
            final(self).wf(),
            Self::mouse_post(*old(self), *final(self), m, views(r@)),
    {
        self.mouse_col = m.column;
        self.mouse_row = m.row;
        match m.kind {
            MouseKind::Moved => {
                self.mouse_moved(m.column, m.row);
                Vec::new()
            },
            MouseKind::Down => self.mouse_down(m.column, m.row),
            MouseKind::Up => {
                self.mouse_up();
                Vec::new()
            },
            MouseKind::Drag => {
                self.mouse_drag(m.column, m.row);
                Vec::new()
            },
            MouseKind::ScrollUp => self.wheel(true, m.column, m.row),
            MouseKind::ScrollDown => self.wheel(false, m.column, m.row),
            MouseKind::Other => Vec::new(),
        }
    }
}
} // verus!

verus! {

/// The target drawn topmost at a point is one of the targets.
proof fn lemma_top_hit_in(hits: Seq<Hit>, col: int, row: int)
    ensures
        top_hit(hits, col, row) matches Some(h) ==> exists|i: int| 0 <= i < hits.len() && hits[i] == h,
    decreases hits.len(),
{
    if hits.len() > 0 && !inside(hits.last().area, col, row) {
        lemma_top_hit_in(hits.drop_last(), col, row);
        if let Some(h) = top_hit(hits.drop_last(), col, row) {
            let i = choose|i: int| 0 <= i < hits.drop_last().len() && hits.drop_last()[i] == h;
            assert(hits[i] == h);
        }
    }
}

impl<L> App<L> {
    /// A tab target names a tab that exists.
    pub open spec fn kind_in_range(&self, kind: HitKind) -> bool {
        match kind {
            HitKind::FileTab { index } => index < self.viewer.tabs@.len(),
            HitKind::TermTab { index } => index < self.terms@.len(),
            _ => true,
        }
    }

    /// Every tab target drawn last frame names a tab that exists, as a frame
    /// drawn from the current tabs gives them.
    pub open spec fn tab_hits_in_range(&self) -> bool {
        forall|i: int| 0 <= i < self.hits@.len() ==> self.kind_in_range(#[trigger] self.hits@[i].kind)
    }

    /// Whether every tab target drawn last frame names a tab that exists.
    pub fn tab_hits_ok(&self) -> (r: bool)
        ensures
            r == self.tab_hits_in_range(),
    {
        let mut i: usize = 0;
        while i < self.hits.len()
            invariant
                i <= self.hits@.len(),
                forall|j: int| 0 <= j < i ==> self.kind_in_range(#[trigger] self.hits@[j].kind),
            decreases self.hits@.len() - i,
        {
            let ok = match self.hits[i].kind {
                HitKind::FileTab { index } => index < self.viewer.tabs.len(),
                HitKind::TermTab { index } => index < self.terms.len(),
                _ => true,
            };
            if !ok {
                return false;
            }
            i = i + 1;
        }
        true
    }
}

} // verus!
