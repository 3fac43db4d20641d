//! The workbench's start, its clock, the file watcher's reports and the
//! terminals' output and sizes.
use vstd::prelude::*;

use crate::paths::same_path;
use crate::git::{GitBranch, GitStatus};
use crate::search::FileIndex;
use crate::term::{min_cols, min_rows, PtyEvent, TermPane};
use crate::text::chars_of;
use crate::theme::{palette_index, Theme};
use crate::tree::{DirEntry, FileTree};
use crate::ui::Rect;
use crate::viewer::FileViewer;
use crate::workbench::{views, Action, ActionV, App, Areas, Focus, GitPaneTab};

verus! {

/// Nothing drawn yet.
pub open spec fn no_areas() -> Areas {
    let z = Rect { x: 0, y: 0, width: 0, height: 0 };
    Areas {
        main: z,
        tree_area: z,
        tree_inner: z,
        viewer_area: z,
        viewer_body: z,
        term_area: z,
        term_body: z,
        v_split: z,
        h_split: z,
    }
}

/// The paths as plain values.
pub open spec fn names(paths: Seq<String>) -> Seq<Seq<char>> {
    paths.map_values(|p: String| p@)
}

/// `a` reloads a tab showing one of `changed` (paths compared as `Path`s).
pub open spec fn reload_of(a: ActionV, tabs: Seq<Seq<char>>, changed: Seq<Seq<char>>) -> bool {
    match a {
        ActionV::LoadTab { index } => index < tabs.len() && exists|k: int|
            0 <= k < changed.len() && same_path(tabs[index as int], #[trigger] changed[k]),
        _ => false,
    }
}

/// What a loop turn asks for when the git status was read `elapsed_nanos`
/// nanoseconds ago: a new read once more than three seconds have passed.
pub fn git_refresh_due(elapsed_nanos: u128) -> (r: Vec<Action>)
    ensures
        views(r@) == if elapsed_nanos > 3_000_000_000 { seq![ActionV::LoadGit] } else { Seq::<ActionV>::empty() },
{
    if elapsed_nanos > 3_000_000_000u128 {
        let r = vec![Action::LoadGit];
        assert(views(r@) =~= seq![ActionV::LoadGit]);
        r
    } else {
        let r: Vec<Action> = Vec::new();
        assert(views(r@) =~= Seq::<ActionV>::empty());
        r
    }
}

/// Whether files changing `elapsed_nanos` nanoseconds after the last read of
/// the git status call for a new read: once more than 400 ms have passed.
pub fn git_refresh_due_after_change(elapsed_nanos: u128) -> (r: bool)
    ensures
        r == (elapsed_nanos > 400_000_000),
{
    elapsed_nanos > 400_000_000u128
}

impl<L> App<L> {
    /// The workbench on `root` at start-up: the explorer with the root's
    /// `entries` and the markers of `git`, the git status and `branches`, no
    /// file open, one terminal of 20 rows by 80 columns titled `zsh · 1`, the
    /// explorer focused, 34 columns wide over 42% of the height, the palette of
    /// `theme`, and a hint on the status line.
    pub fn new(root: String, git: GitStatus, branches: Vec<GitBranch>, entries: Vec<DirEntry>, theme: Theme) -> (r: Self)
        requires
            git.map.wf(),
        ensures
            r.wf(),
            r.root == root,
            r.tree.git@ == git.map@,
            r.tree.root_view().path == root@,
            r.tree.selected == 0,
            r.tree.scroll == 0,
            r.viewer.tabs@.len() == 0,
            r.terms@.len() == 1,
            r.terms@[0].title@ == "zsh · 1"@,
            r.terms@[0].rows == 20,
            r.terms@[0].cols == 80,
            r.terms@[0].alive,
            r.active_term == 0,
            r.next_term_id == 2,
            r.focus == Focus::Tree,
            r.branch == git.branch,
            r.show_tree && !r.show_git,
            r.git_tab == GitPaneTab::Changes,
            r.git_entries == git.entries,
            r.git_branches == branches,
            r.git_cursor == 0 && r.git_scroll == 0,
            r.areas == no_areas(),
            r.hits@.len() == 0,
            r.hover is None && !r.pointer_on && r.mouse_col == 0 && r.mouse_row == 0 && r.tree_hover_row is None,
            r.tree_width == 34 && r.top_pct == 42,
            r.drag is None,
            !r.should_quit && !r.show_help && !r.show_themes && !r.show_search,
            r.theme == theme,
            r.theme_cursor == palette_index(theme.current),
            r.search_query@.len() == 0 && r.search_cursor == 0 && r.search_hits@.len() == 0,
            r.file_index.paths@.len() == 0 && !r.file_index.is_built(),
            r.status@ == "Press ? help · Ctrl+O search · Ctrl+P themes"@,
    {
        let tree = FileTree::new(root.clone(), git.map, entries);
        proof {
            crate::tree::lemma_visible_nonempty(tree.root_view());
        }
        let first = TermPane::new(20, 80, String::from_str("zsh · 1"));
        let z = Rect::zero();
        let areas = Areas {
            main: z,
            tree_area: z,
            tree_inner: z,
            viewer_area: z,
            viewer_body: z,
            term_area: z,
            term_body: z,
            v_split: z,
            h_split: z,
        };
        let cursor = theme.id().index();
        App {
            root,
            tree,
            viewer: FileViewer::new(),
            terms: vec![first],
            active_term: 0,
            next_term_id: 2,
            focus: Focus::Tree,
            branch: git.branch,
            show_tree: true,
            show_git: false,
            git_tab: GitPaneTab::Changes,
            git_entries: git.entries,
            git_branches: branches,
            git_cursor: 0,
            git_scroll: 0,
            last_git_refresh: crate::clock::instant_now(),
            areas,
            hits: Vec::new(),
            hover: None,
            pointer_on: false,
            mouse_col: 0,
            mouse_row: 0,
            tree_hover_row: None,
            tree_width: 34,
            top_pct: 42,
            drag: None,
            should_quit: false,
            show_help: false,
            show_themes: false,
            theme,
            theme_cursor: cursor,
            show_search: false,
            search_query: String::new(),
            search_cursor: 0,
            search_hits: Vec::new(),
            file_index: FileIndex { paths: Vec::new(), built_at: None },
            status: String::from_str("Press ? help · Ctrl+O search · Ctrl+P themes"),
        }
    }

    /// Once a loop turn: after three seconds the git status is read again.
    /// Whether the time has come depends on the clock; the only action ever
    /// asked for is a read of the git status.
    pub fn tick(&self) -> (r: Vec<Action>)
        ensures
            r@.len() == 0 || views(r@) == seq![ActionV::LoadGit],
    {
        git_refresh_due(crate::clock::elapsed_nanos(&self.last_git_refresh))
    }

    /// The watcher reported `paths` as changed: each tab showing one is
    /// reloaded, the file index is marked stale, and the status line says so
    /// when the open file is among them. When anything changed and the git
    /// status is older than 400 ms it is read again (that depends on the
    /// clock).
    pub fn files_changed(&mut self, paths: Vec<String>) -> (r: Vec<Action>)
        requires
            old(self).wf(),
        ensures
            final(self).wf(),
            *final(self) == (App { file_index: final(self).file_index, status: final(self).status, ..*old(self) }),
            final(self).file_index.paths@ == old(self).file_index.paths@,
            paths@.len() > 0 ==> !final(self).file_index.is_built(),
            paths@.len() == 0 ==> final(self).file_index == old(self).file_index,
            (exists|k: int| 0 <= k < paths@.len() && old(self).viewer.has_active() && same_path(old(self).viewer.active_tab().path@, #[trigger] paths@[k]@)) ==> final(self).status@ == "● Reloaded from disk"@,
            !(exists|k: int| 0 <= k < paths@.len() && old(self).viewer.has_active() && same_path(old(self).viewer.active_tab().path@, #[trigger] paths@[k]@)) ==> final(self).status == old(self).status,
            forall|k: int, t: int|
                0 <= k < paths@.len() && 0 <= t < old(self).viewer.tabs@.len() && same_path(#[trigger] old(self).viewer.paths()[t], #[trigger] paths@[k]@) ==> views(r@).contains(ActionV::LoadTab { index: t as usize }),
            forall|j: int|
                0 <= j < r@.len() ==> (#[trigger] views(r@)[j] == ActionV::LoadGit && paths@.len() > 0) || reload_of(
                    views(r@)[j],
                    old(self).viewer.paths(),
                    names(paths@),
                ),
    {
        let mut r: Vec<Action> = Vec::new();
        let mut i: usize = 0;
        while i < paths.len()
            invariant
                i <= paths@.len(),
                self.wf(),
                *self == (App { file_index: self.file_index, status: self.status, ..*old(self) }),
                self.file_index.paths@ == old(self).file_index.paths@,
                i > 0 ==> !self.file_index.is_built(),
                i == 0 ==> self.file_index == old(self).file_index,
                (exists|k: int| 0 <= k < i && old(self).viewer.has_active() && same_path(old(self).viewer.active_tab().path@, #[trigger] paths@[k]@)) ==> self.status@ == "● Reloaded from disk"@,
                !(exists|k: int| 0 <= k < i && old(self).viewer.has_active() && same_path(old(self).viewer.active_tab().path@, #[trigger] paths@[k]@)) ==> self.status == old(self).status,
                forall|k: int, t: int|
                    0 <= k < i && 0 <= t < old(self).viewer.tabs@.len() && same_path(#[trigger] old(self).viewer.paths()[t], #[trigger] paths@[k]@) ==> views(r@).contains(ActionV::LoadTab { index: t as usize }),
                forall|j: int| 0 <= j < r@.len() ==> reload_of(#[trigger] views(r@)[j], old(self).viewer.paths(), names(paths@)),
            decreases paths@.len() - i,
        {
            let p = &paths[i];
            let tabs = self.viewer.tabs_showing(p.as_str());
            let mut t: usize = 0;
            while t < tabs.len()
                invariant
                    t <= tabs@.len(),
                    i < paths@.len(),
                    p@ == paths@[i as int]@,
                    self.viewer == old(self).viewer,
                    forall|k: int| 0 <= k < tabs@.len() ==> #[trigger] tabs@[k] < self.viewer.tabs@.len()
                        && same_path(self.viewer.paths()[tabs@[k] as int], p@),
                    forall|j: int| 0 <= j < self.viewer.tabs@.len() && same_path(self.viewer.paths()[j], p@) ==> tabs@.contains(
                        j as usize,
                    ),
                    forall|k: int, u: int|
                        0 <= k < i && 0 <= u < old(self).viewer.tabs@.len() && same_path(#[trigger] old(self).viewer.paths()[u], #[trigger] paths@[k]@) ==> views(r@).contains(ActionV::LoadTab { index: u as usize }),
                    forall|k: int| 0 <= k < t ==> views(r@).contains(ActionV::LoadTab { index: #[trigger] tabs@[k] }),
                    forall|j: int| 0 <= j < r@.len() ==> reload_of(#[trigger] views(r@)[j], old(self).viewer.paths(), names(paths@)),
                decreases tabs@.len() - t,
            {
                let ghost before = views(r@);
                r.push(Action::LoadTab { index: tabs[t] });
                proof {
                    assert(views(r@) =~= before.push(ActionV::LoadTab { index: tabs@[t as int] }));
                    assert forall|x: ActionV| before.contains(x) implies views(r@).contains(x) by {
                        let j = choose|j: int| 0 <= j < before.len() && before[j] == x;
                        assert(views(r@)[j] == x);
                    }
                    assert(views(r@)[before.len() as int] == ActionV::LoadTab { index: tabs@[t as int] });
                    assert(same_path(old(self).viewer.paths()[tabs@[t as int] as int], paths@[i as int]@));
                    assert(names(paths@)[i as int] == paths@[i as int]@);
                }
                t = t + 1;
            }
            proof {
                assert forall|k: int, u: int|
                    0 <= k < i + 1 && 0 <= u < old(self).viewer.tabs@.len() && same_path(#[trigger] old(self).viewer.paths()[u], #[trigger] paths@[k]@) implies views(r@).contains(ActionV::LoadTab { index: u as usize }) by {
                    if k == i {
                        assert(tabs@.contains(u as usize));
                        let x = choose|x: int| 0 <= x < tabs@.len() && tabs@[x] == u as usize;
                        assert(views(r@).contains(ActionV::LoadTab { index: tabs@[x] }));
                    }
                }
            }
            self.file_index.built_at_invalidate();
            let shown = match self.viewer.path() {
                Some(q) => {
                    let a = chars_of(q.as_str());
                    let b = chars_of(p.as_str());
                    crate::paths::path_eq(&a, &b)
                },
                None => false,
            };
            if shown {
                self.status = String::from_str("● Reloaded from disk");
            }
            i = i + 1;
        }
        if paths.len() > 0 && git_refresh_due_after_change(crate::clock::elapsed_nanos(&self.last_git_refresh)) {
            let ghost before = views(r@);
            r.push(Action::LoadGit);
            proof {
                assert(views(r@) =~= before.push(ActionV::LoadGit));
                assert forall|x: ActionV| before.contains(x) implies views(r@).contains(x) by {
                    let j = choose|j: int| 0 <= j < before.len() && before[j] == x;
                    assert(views(r@)[j] == x);
                }
            }
        }
        r
    }

    /// The shell of terminal `index` sent `ev`.
    pub fn pty_event(&mut self, index: usize, ev: PtyEvent)
        requires
            old(self).wf(),
        ensures
            final(self).wf(),
            index >= old(self).terms@.len() ==> *final(self) == *old(self),
            index < old(self).terms@.len() ==> {
                let t = old(self).terms@[index as int];
                let n = final(self).terms@[index as int];
                &&& final(self).terms@.len() == old(self).terms@.len()
                &&& forall|j: int| 0 <= j < old(self).terms@.len() && j != index ==> #[trigger] final(self).terms@[j] == old(self).terms@[j]
                &&& n.rows == t.rows && n.cols == t.cols && n.title == t.title
                &&& n.alive == (t.alive && !(ev is Exit))
                &&& *final(self) == (App { terms: final(self).terms, ..*old(self) })
            },
    {
        if index < self.terms.len() {
            let mut pane = self.terms.remove(index);
            pane.accept(ev);
            self.terms.insert(index, pane);
        }
    }

    /// After a frame: every terminal takes the size of the terminal body (at
    /// least 2 rows by 10 columns). Gives the terminals whose size changed,
    /// with that size, for their pseudo-terminals.
    pub fn fit_terminals(&mut self) -> (r: Vec<(usize, u16, u16)>)
        requires
            old(self).wf(),
        ensures
            final(self).wf(),
            *final(self) == (App { terms: final(self).terms, ..*old(self) }),
            final(self).terms@.len() == old(self).terms@.len(),
            forall|j: int| 0 <= j < old(self).terms@.len() ==> {
                let t = old(self).terms@[j];
                let n = #[trigger] final(self).terms@[j];
                &&& n.rows == min_rows(old(self).areas.term_body.height as int)
                &&& n.cols == min_cols(old(self).areas.term_body.width as int)
                &&& n.title == t.title && n.alive == t.alive
            },
            forall|k: int| 0 <= k < r@.len() ==> {
                let (i, rows, cols) = #[trigger] r@[k];
                &&& i < old(self).terms@.len()
                &&& rows == min_rows(old(self).areas.term_body.height as int)
                &&& cols == min_cols(old(self).areas.term_body.width as int)
            },
            forall|j: int|
                0 <= j < old(self).terms@.len() && (old(self).terms@[j].rows != min_rows(old(self).areas.term_body.height as int)
                    || old(self).terms@[j].cols != min_cols(old(self).areas.term_body.width as int)) ==> exists|k: int|
                    0 <= k < r@.len() && (#[trigger] r@[k]).0 == j,
    {
        let h = self.areas.term_body.height;
        let w = self.areas.term_body.width;
        let mut r: Vec<(usize, u16, u16)> = Vec::new();
        let mut i: usize = 0;
        while i < self.terms.len()
            invariant
                i <= self.terms@.len(),
                self.terms@.len() == old(self).terms@.len(),
                h == old(self).areas.term_body.height,
                w == old(self).areas.term_body.width,
                *self == (App { terms: self.terms, ..*old(self) }),
                forall|j: int| i <= j < old(self).terms@.len() ==> #[trigger] self.terms@[j] == old(self).terms@[j],
                forall|j: int| 0 <= j < self.terms@.len() ==> (#[trigger] self.terms@[j]).wf(),
                forall|j: int| 0 <= j < i ==> {
                    let t = old(self).terms@[j];
                    let n = #[trigger] self.terms@[j];
                    &&& n.rows == min_rows(h as int)
                    &&& n.cols == min_cols(w as int)
                    &&& n.title == t.title && n.alive == t.alive
                },
                forall|k: int| 0 <= k < r@.len() ==> {
                    let (x, rows, cols) = #[trigger] r@[k];
                    &&& x < i
                    &&& rows == min_rows(h as int)
                    &&& cols == min_cols(w as int)
                },
                forall|j: int|
                    0 <= j < i && (old(self).terms@[j].rows != min_rows(h as int) || old(self).terms@[j].cols != min_cols(
                        w as int,
                    )) ==> exists|k: int| 0 <= k < r@.len() && (#[trigger] r@[k]).0 == j,
            decreases old(self).terms@.len() - i,
        {
            let mut pane = self.terms.remove(i);
            let changed = pane.resize(h, w);
            let rows = pane.rows;
            let cols = pane.cols;
            self.terms.insert(i, pane);
            assert(forall|j: int| 0 <= j < self.terms@.len() ==> (#[trigger] self.terms@[j]).wf());
            let ghost before = r@;
            if changed {
                r.push((i, rows, cols));
                assert(r@[r@.len() - 1].0 == i);
            }
            proof {
                assert forall|j: int|
                    0 <= j < i + 1 && (old(self).terms@[j].rows != min_rows(h as int) || old(self).terms@[j].cols
                        != min_cols(w as int)) implies exists|k: int| 0 <= k < r@.len() && (#[trigger] r@[k]).0 == j by {
                    if j < i {
                        let k = choose|k: int| 0 <= k < before.len() && (#[trigger] before[k]).0 == j;
                        assert(r@[k] == before[k]);
                    } else {
                        assert(changed);
                        assert(r@[r@.len() - 1].0 == j);
                    }
                }
            }
            i = i + 1;
        }
        r
    }
}

} // verus!
