//! The workbench: the state around the explorer, the viewer and the terminals
//! (focus, overlays, the git pane, the terminal tabs, the split, the pointer,
//! the status line) and how keys, the mouse and the results of outside work
//! change it. Work that needs the disk, git or a shell is handed back as
//! `Action`s; its results come in through the methods that take them.
use vstd::prelude::*;

use crate::git::{checkout_error, DiffKind, GitBranch, GitEntry, GitStatus};
use crate::search::{all_paths_fit, index_entries, path_views, paths_fit, search_result, FileIndex, SearchHit};
use crate::sort::permutes;
use crate::ui::monus;
use crate::term::TermPane;
use crate::text::{chars_of, push_char, concat_str, decimal, decimal_string, first_line, lines, push_str};
use crate::theme::{palette_at, palette_index, palette_name, PaletteId, Theme};
use crate::tree::{unloaded_dir, DirEntry, FileTree};
use crate::ui::{Hit, HitKind, Rect};
use crate::viewer::{FileViewer, ViewMode};

verus! {

#[derive(Debug, Clone, Copy, PartialEq, Eq, Structural)]
pub enum Focus {
    Tree,
    Viewer,
    Terminal,
}

#[derive(Debug, Clone, Copy, PartialEq, Eq, Structural)]
pub enum GitPaneTab {
    Changes,
    Branches,
}

#[derive(Debug, Clone, Copy, PartialEq, Eq, Structural)]
pub enum DragKind {
    VSplit,
    HSplit,
}

/// A key as the terminal reports it.
#[derive(Debug, Clone, Copy, PartialEq, Eq, Structural)]
pub enum KeyCode {
    Char(char),
    F(u8),
    Enter,
    Esc,
    Up,
    Down,
    Left,
    Right,
    Home,
    End,
    PageUp,
    PageDown,
    Tab,
    BackTab,
    Backspace,
    Other,
}

/// Modifier keys held; `other` stands for any besides these three.
#[derive(Debug, Clone, Copy, PartialEq, Eq, Structural)]
pub struct Mods {
    pub ctrl: bool,
    pub shift: bool,
    pub alt: bool,
    pub other: bool,
}

#[derive(Debug, Clone, Copy, PartialEq, Eq, Structural)]
pub struct Key {
    pub code: KeyCode,
    pub mods: Mods,
}

/// A mouse event; `Down`, `Up` and `Drag` are of the left button, other
/// buttons come as `Other`.
#[derive(Debug, Clone, Copy, PartialEq, Eq, Structural)]
pub enum MouseKind {
    Moved,
    Down,
    Up,
    Drag,
    ScrollUp,
    ScrollDown,
    Other,
}

#[derive(Debug, Clone, Copy, PartialEq, Eq, Structural)]
pub struct Mouse {
    pub kind: MouseKind,
    pub column: u16,
    pub row: u16,
}

/// Where the panes were drawn in the last frame.
#[derive(Debug, Clone, Copy, PartialEq, Eq, Structural)]
pub struct Areas {
    pub main: Rect,
    pub tree_area: Rect,
    pub tree_inner: Rect,
    pub viewer_area: Rect,
    pub viewer_body: Rect,
    pub term_area: Rect,
    pub term_body: Rect,
    pub v_split: Rect,
    pub h_split: Rect,
}

/// What to do once the entries of a directory are loaded.
#[derive(Debug, Clone, Copy, PartialEq, Eq, Structural)]
pub enum AfterLoad {
    /// Open or close the selected row, as Enter does.
    Toggle,
    /// Select and open the row at `index`, as a click does.
    Click { index: usize },
}

/// Work that the workbench hands out; each result comes back through the
/// method named.
pub enum Action {
    /// List the workspace's files, for `files_indexed`.
    IndexFiles,
    /// Read `git status`, for `git_loaded`.
    LoadGit,
    /// List the branches, for `branches_loaded`.
    LoadBranches { select_current: bool },
    /// `git add` the file, for `staged`.
    Stage { path: String, rel: String },
    /// Unstage the file, for `unstaged`.
    Unstage { path: String, rel: String },
    /// `git checkout` the branch, for `checked_out`.
    Checkout { name: String },
    /// Start a shell in a new pseudo-terminal, for `terminal_started`.
    SpawnTerminal { rows: u16, cols: u16, title: String },
    /// Stop the pseudo-terminal at `index`, whose tab was removed.
    CloseTerminal { index: usize },
    /// Send `bytes` to the shell of terminal `index`.
    Write { index: usize, bytes: Vec<u8> },
    /// Load the lines of viewer tab `index` for its mode.
    LoadTab { index: usize },
    /// Read the entries of the directory `path`, for `dir_loaded`.
    LoadDir { path: String, then: AfterLoad },
    /// Load the directories on the way to `path`, then call `reveal_file`.
    Reveal { path: String },
    /// Remember `id` as the chosen palette.
    SaveTheme { id: PaletteId },
}

/// An action as plain values.
pub enum ActionV {
    IndexFiles,
    LoadGit,
    LoadBranches { select_current: bool },
    Stage { path: Seq<char>, rel: Seq<char> },
    Unstage { path: Seq<char>, rel: Seq<char> },
    Checkout { name: Seq<char> },
    SpawnTerminal { rows: u16, cols: u16, title: Seq<char> },
    CloseTerminal { index: usize },
    Write { index: usize, bytes: Seq<u8> },
    LoadTab { index: usize },
    LoadDir { path: Seq<char>, then: AfterLoad },
    Reveal { path: Seq<char> },
    SaveTheme { id: PaletteId },
}

impl View for Action {
    type V = ActionV;

    open spec fn view(&self) -> ActionV {
        match self {
            Action::IndexFiles => ActionV::IndexFiles,
            Action::LoadGit => ActionV::LoadGit,
            Action::LoadBranches { select_current } => ActionV::LoadBranches { select_current: *select_current },
            Action::Stage { path, rel } => ActionV::Stage { path: path@, rel: rel@ },
            Action::Unstage { path, rel } => ActionV::Unstage { path: path@, rel: rel@ },
            Action::Checkout { name } => ActionV::Checkout { name: name@ },
            Action::SpawnTerminal { rows, cols, title } => ActionV::SpawnTerminal {
                rows: *rows,
                cols: *cols,
                title: title@,
            },
            Action::CloseTerminal { index } => ActionV::CloseTerminal { index: *index },
            Action::Write { index, bytes } => ActionV::Write { index: *index, bytes: bytes@ },
            Action::LoadTab { index } => ActionV::LoadTab { index: *index },
            Action::LoadDir { path, then } => ActionV::LoadDir { path: path@, then: *then },
            Action::Reveal { path } => ActionV::Reveal { path: path@ },
            Action::SaveTheme { id } => ActionV::SaveTheme { id: *id },
        }
    }
}

/// The actions as plain values.
pub open spec fn views(a: Seq<Action>) -> Seq<ActionV> {
    a.map_values(|x: Action| x@)
}

pub struct App<L> {
    pub root: String,
    pub tree: FileTree,
    pub viewer: FileViewer<L>,
    pub terms: Vec<TermPane>,
    pub active_term: usize,
    pub next_term_id: usize,
    pub focus: Focus,
    pub branch: String,
    pub show_tree: bool,
    pub show_git: bool,
    pub git_tab: GitPaneTab,
    pub git_entries: Vec<GitEntry>,
    pub git_branches: Vec<GitBranch>,
    pub git_cursor: usize,
    pub git_scroll: usize,
    pub last_git_refresh: std::time::Instant,
    pub areas: Areas,
    pub hits: Vec<Hit>,
    pub hover: Option<HitKind>,
    pub pointer_on: bool,
    pub mouse_col: u16,
    pub mouse_row: u16,
    pub tree_hover_row: Option<usize>,
    /// Explorer width in columns.
    pub tree_width: u16,
    /// Share of the main area above the terminal, in percent.
    pub top_pct: u16,
    pub drag: Option<DragKind>,
    pub should_quit: bool,
    pub show_help: bool,
    pub show_themes: bool,
    pub theme: Theme,
    pub theme_cursor: usize,
    pub show_search: bool,
    pub search_query: String,
    pub search_cursor: usize,
    pub search_hits: Vec<SearchHit>,
    pub file_index: FileIndex,
    pub status: String,
}

/// The number of palettes.
pub open spec fn palettes() -> int {
    8
}

/// The length of the list that the git pane shows on tab `tab`.
pub open spec fn list_len(tab: GitPaneTab, entries: int, branches: int) -> int {
    match tab {
        GitPaneTab::Changes => entries,
        GitPaneTab::Branches => branches,
    }
}

/// The scroll offset that brings row `cursor` into `height` rows.
pub open spec fn scroll_to_show(cursor: int, scroll: int, height: int) -> int {
    if height == 0 {
        scroll
    } else if cursor < scroll {
        cursor
    } else if cursor >= scroll + height {
        cursor + 1 - height
    } else {
        scroll
    }
}

/// A cursor kept inside a list of `len` rows.
pub open spec fn clamped_cursor(cursor: int, len: int) -> int {
    if len == 0 {
        0
    } else if cursor >= len {
        len - 1
    } else {
        cursor
    }
}

/// The focus after Ctrl+T.
pub open spec fn next_focus(f: Focus) -> Focus {
    match f {
        Focus::Tree => Focus::Viewer,
        Focus::Viewer => Focus::Terminal,
        Focus::Terminal => Focus::Tree,
    }
}

/// The tab after tab `i` of `n`, after the last the first.
pub open spec fn next_index(i: int, n: int) -> int {
    (i + 1) % n
}

/// The tab before tab `i` of `n`, before the first the last.
pub open spec fn prev_index(i: int, n: int) -> int {
    if i == 0 {
        n - 1
    } else {
        i - 1
    }
}

/// Ctrl+T three times gives the focus back.
pub proof fn law_focus_cycles(f: Focus)
    ensures
        next_focus(next_focus(next_focus(f))) == f,
{
}

/// Moving to the next tab and back to the previous one returns to the tab
/// one started on, for terminal tabs and file tabs alike.
pub proof fn law_next_then_prev(i: int, n: int)
    requires
        0 <= i < n,
    ensures
        prev_index(next_index(i, n), n) == i,
        next_index(prev_index(i, n), n) == i,
        0 <= next_index(i, n) < n,
        0 <= prev_index(i, n) < n,
{
    if i + 1 < n {
        assert((i + 1) % n == i + 1) by (nonlinear_arith)
            requires
                0 <= i + 1 < n,
        ;
    } else {
        assert((i + 1) % n == 0) by (nonlinear_arith)
            requires
                i + 1 == n,
                n > 0,
        ;
    }
    let p = prev_index(i, n);
    if p + 1 < n {
        assert((p + 1) % n == p + 1) by (nonlinear_arith)
            requires
                0 <= p + 1 < n,
        ;
    } else {
        assert((p + 1) % n == 0) by (nonlinear_arith)
            requires
                p + 1 == n,
                n > 0,
        ;
    }
}

/// The active terminal after the one at `index` of `len` closed.
pub open spec fn active_after_close(active: int, index: int, len: int) -> int {
    if active >= len - 1 {
        len - 2
    } else if index < active {
        active - 1
    } else {
        active
    }
}

impl<L> App<L> {
    pub open spec fn git_len(&self) -> int {
        list_len(self.git_tab, self.git_entries@.len() as int, self.git_branches@.len() as int)
    }

    /// What every operation keeps: a terminal tab is always active, the cursors
    /// stay on their lists, the explorer shows the rows of its tree with one
    /// selected, and its markers are well formed.
    pub open spec fn wf(&self) -> bool {
        &&& self.viewer.wf()
        &&& 1 <= self.terms@.len()
        &&& self.active_term < self.terms@.len()
        &&& forall|i: int| 0 <= i < self.terms@.len() ==> (#[trigger] self.terms@[i]).wf()
        &&& self.theme_cursor < palettes()
        &&& (self.git_cursor == 0 || self.git_cursor < self.git_len())
        &&& (self.search_cursor == 0 || self.search_cursor < self.search_hits@.len())
        &&& self.tree.rows() == self.tree.visible()
        &&& self.tree.selected < self.tree.flat@.len()
        &&& self.tree.git.wf()
    }

    pub(crate) fn git_list_len(&self) -> (r: usize)
        ensures
            r == self.git_len(),
    {
        match self.git_tab {
            GitPaneTab::Changes => self.git_entries.len(),
            GitPaneTab::Branches => self.git_branches.len(),
        }
    }

    /// Keeps the git cursor on the list; an empty list also scrolls to the top.
    pub(crate) fn clamp_git_cursor(&mut self)
        ensures
            *final(self) == (App {
                git_cursor: clamped_cursor(old(self).git_cursor as int, old(self).git_len()) as usize,
                git_scroll: if old(self).git_len() == 0 { 0 } else { old(self).git_scroll },
                ..*old(self)
            }),
    {
        let len = self.git_list_len();
        if len == 0 {
            self.git_cursor = 0;
            self.git_scroll = 0;
            return;
        }
        if self.git_cursor >= len {
            self.git_cursor = len - 1;
        }
    }

    /// While drawing: scrolls the git pane so that the cursor is among the
    /// `height` rows shown.
    pub fn git_show_cursor(&mut self, height: usize)
        requires
            old(self).wf(),
        ensures
            final(self).wf(),
            *final(self) == (App {
                git_scroll: scroll_to_show(old(self).git_cursor as int, old(self).git_scroll as int, height as int) as usize,
                ..*old(self)
            }),
    {
        let _n = self.git_list_len();
        self.ensure_git_visible(height);
    }

    /// Scrolls the git pane so that the cursor is among `height` rows.
    pub(crate) fn ensure_git_visible(&mut self, height: usize)
        requires
            old(self).git_cursor < usize::MAX,
        ensures
            *final(self) == (App {
                git_scroll: scroll_to_show(old(self).git_cursor as int, old(self).git_scroll as int, height as int) as usize,
                ..*old(self)
            }),
    {
        if height == 0 {
            return;
        }
        if self.git_cursor < self.git_scroll {
            self.git_scroll = self.git_cursor;
        } else if self.git_cursor - self.git_scroll >= height {
            self.git_scroll = self.git_cursor + 1 - height;
        }
    }
}


/// The status line once quick-open shows `n` indexed files.
pub open spec fn search_status(n: nat) -> Seq<char> {
    "Search files · "@ + decimal(n) + " indexed · type to filter"@
}

/// The status line once a theme is chosen.
pub open spec fn theme_status(id: PaletteId) -> Seq<char> {
    "Theme · "@ + palette_name(id)
}

impl<L> App<L> {
    /// Reruns the search for the query, up to 40 results, and keeps the cursor
    /// on them.
    pub(crate) fn refresh_search_hits(&mut self)
        ensures
            *final(self) == (App {
                search_hits: final(self).search_hits,
                search_cursor: final(self).search_cursor,
                ..*old(self)
            }),
            paths_fit(old(self).file_index.paths@) ==> search_result(
                path_views(old(self).file_index.paths@),
                old(self).root@,
                old(self).search_query@,
                40,
                final(self).search_hits@.map_values(|h: SearchHit| h@),
            ),
            !paths_fit(old(self).file_index.paths@) ==> final(self).search_hits@.len() == 0,
            final(self).search_cursor == if old(self).search_cursor >= final(self).search_hits@.len() {
                monus(final(self).search_hits@.len() as int, 1)
            } else {
                old(self).search_cursor as int
            },
    {
        if all_paths_fit(&self.file_index.paths) {
            self.search_hits = self.file_index.search(self.root.as_str(), self.search_query.as_str(), 40);
        } else {
            self.search_hits = Vec::new();
        }
        if self.search_cursor >= self.search_hits.len() {
            self.search_cursor = self.search_hits.len().saturating_sub(1);
        }
    }

    /// Shows quick-open with an empty query and the first 40 indexed files.
    pub(crate) fn show_search_panel(&mut self)
        ensures
            *final(self) == (App {
                show_help: false,
                show_themes: false,
                show_search: true,
                search_query: final(self).search_query,
                search_cursor: 0,
                search_hits: final(self).search_hits,
                status: final(self).status,
                ..*old(self)
            }),
            final(self).search_query@.len() == 0,
            paths_fit(old(self).file_index.paths@) ==> search_result(
                path_views(old(self).file_index.paths@),
                old(self).root@,
                Seq::empty(),
                40,
                final(self).search_hits@.map_values(|h: SearchHit| h@),
            ),
            !paths_fit(old(self).file_index.paths@) ==> final(self).search_hits@.len() == 0,
            final(self).status@ == search_status(old(self).file_index.paths@.len()),
    {
        self.show_help = false;
        self.show_themes = false;
        self.show_search = true;
        self.search_query = String::new();
        self.search_cursor = 0;
        self.refresh_search_hits();
        let mut st = String::from_str("Search files · ");
        push_str(&mut st, decimal_string(self.file_index.paths.len() as u64).as_str());
        push_str(&mut st, " indexed · type to filter");
        self.status = st;
    }

    /// Opens quick-open, first asking for the file list when the index is
    /// empty or older than 30 seconds.
    pub fn open_search(&mut self) -> (r: Vec<Action>)
        ensures
            r@.len() == 0 || (views(r@) == seq![ActionV::IndexFiles] && *final(self) == *old(self)),
            (!old(self).file_index.is_built() || old(self).file_index.paths@.len() == 0) ==> views(r@)
                == seq![ActionV::IndexFiles],
            r@.len() == 0 ==> Self::search_shown(*old(self), *final(self)),
    {
        if self.file_index.is_stale(30) || self.file_index.paths.len() == 0 {
            let r = vec![Action::IndexFiles];
            assert(views(r@) =~= seq![ActionV::IndexFiles]);
            return r;
        }
        self.show_search_panel();
        Vec::new()
    }

    /// The state once quick-open is shown: the other overlays closed, an empty
    /// query, the first 40 files listed, the file count on the status line.
    pub open spec fn search_shown(old: Self, new: Self) -> bool {
        &&& new == (App {
            show_help: false,
            show_themes: false,
            show_search: true,
            search_query: new.search_query,
            search_cursor: 0,
            search_hits: new.search_hits,
            status: new.status,
            ..old
        })
        &&& new.search_query@.len() == 0
        &&& paths_fit(old.file_index.paths@) ==> search_result(
            path_views(old.file_index.paths@),
            old.root@,
            Seq::empty(),
            40,
            new.search_hits@.map_values(|h: SearchHit| h@),
        )
        &&& !paths_fit(old.file_index.paths@) ==> new.search_hits@.len() == 0
        &&& new.status@ == search_status(old.file_index.paths@.len())
    }

    /// The workspace's files were listed: the index is rebuilt from them and
    /// quick-open is shown.
    pub fn files_indexed(&mut self, files: Vec<String>)
        ensures
            final(self).file_index.is_built(),
            permutes(
                path_views(final(self).file_index.paths@),
                index_entries(old(self).root@, path_views(files@)),
            ),
            Self::search_shown(App { file_index: final(self).file_index, ..*old(self) }, *final(self)),
    {
        self.file_index.rebuild_from(self.root.as_str(), files);
        self.show_search_panel();
    }
}

impl<L> App<L> {
    /// Shows `path` in the viewer (a new tab is loaded), reveals it in the
    /// explorer, focuses the viewer and names it on the status line.
    pub fn open_file(&mut self, path: String) -> (r: Vec<Action>)
        ensures
            Self::file_opened(*old(self), *final(self), path@, views(r@)),
    {
        let added = self.viewer.open(path.as_str());
        let mut r: Vec<Action> = Vec::new();
        if added {
            r.push(Action::LoadTab { index: self.viewer.active });
        }
        let status = concat_str("● ", path.as_str());
        r.push(Action::Reveal { path });
        self.focus = Focus::Viewer;
        self.status = status;
        proof {
            if added {
                assert(views(r@) =~= seq![ActionV::LoadTab { index: final(self).viewer.active }, ActionV::Reveal { path: path@ }]);
            } else {
                assert(views(r@) =~= seq![ActionV::Reveal { path: path@ }]);
            }
        }
        r
    }

    pub open spec fn file_opened(old: Self, new: Self, path: Seq<char>, r: Seq<ActionV>) -> bool {
        exists|added: bool| #![trigger FileViewer::<L>::opened(old.viewer, new.viewer, path, added)]
        {
            &&& FileViewer::<L>::opened(old.viewer, new.viewer, path, added)
            &&& new == (App { viewer: new.viewer, focus: Focus::Viewer, status: new.status, ..old })
            &&& new.status@ == "● "@ + path
            &&& r == if added {
                seq![ActionV::LoadTab { index: new.viewer.active }, ActionV::Reveal { path }]
            } else {
                seq![ActionV::Reveal { path }]
            }
        }
    }

    /// Enter in quick-open: opens the result under the cursor.
    pub(crate) fn confirm_search(&mut self) -> (r: Vec<Action>)
        ensures
            old(self).search_cursor < old(self).search_hits@.len() ==> Self::file_opened(
                App { show_search: false, ..*old(self) },
                *final(self),
                old(self).search_hits@[old(self).search_cursor as int].abs@,
                views(r@),
            ),
            old(self).search_cursor >= old(self).search_hits@.len() ==> r@.len() == 0 && *final(self) == (App {
                status: final(self).status,
                ..*old(self)
            }) && final(self).status@ == "No matching files"@,
    {
        if self.search_cursor < self.search_hits.len() {
            let abs = self.search_hits[self.search_cursor].abs.clone();
            self.show_search = false;
            self.open_file(abs)
        } else {
            self.status = String::from_str("No matching files");
            Vec::new()
        }
    }
}

/// The title of the terminal numbered `id`.
pub open spec fn term_title(id: nat) -> Seq<char> {
    "zsh · "@ + decimal(id)
}

impl<L> App<L> {
    /// Ctrl+N, as `add_terminal` does it.
    pub open spec fn terminal_added(old: Self, new: Self, r: Seq<ActionV>) -> bool {
        &&& (new == (App { next_term_id: old.next_term_id.wrapping_add(1), ..old }))
        &&& (r == seq![
                ActionV::SpawnTerminal {
                    rows: crate::term::min_rows(old.areas.term_body.height as int) as u16,
                    cols: crate::term::min_cols(old.areas.term_body.width as int) as u16,
                    title: term_title(old.next_term_id as nat),
                },
            ])
    }

    /// Ctrl+N: asks for a new terminal the size of the terminal body (at least
    /// 2 rows by 10 columns), numbered with the next number.
    pub fn add_terminal(&mut self) -> (r: Vec<Action>)
        ensures
            Self::terminal_added(*old(self), *final(self), views(r@)),
    {
        let id = self.next_term_id;
        self.next_term_id = self.next_term_id.wrapping_add(1);
        let mut title = String::from_str("zsh · ");
        push_str(&mut title, decimal_string(id as u64).as_str());
        let h = self.areas.term_body.height;
        let w = self.areas.term_body.width;
        let rows = if h < 2 { 2 } else { h };
        let cols = if w < 10 { 10 } else { w };
        let r = vec![Action::SpawnTerminal { rows, cols, title }];
        assert(views(r@) =~= seq![r@[0]@]);
        r
    }

    /// The shell for a new terminal started (`Ok`) or failed to.
    pub fn terminal_started(&mut self, rows: u16, cols: u16, title: String, result: Result<(), String>)
        requires
            old(self).wf(),
        ensures
            final(self).wf(),
            match result {
                Ok(()) => {
                    &&& final(self).terms@.len() == old(self).terms@.len() + 1
                    &&& final(self).terms@.take(old(self).terms@.len() as int) == old(self).terms@
                    &&& final(self).terms@.last().rows == crate::term::min_rows(rows as int)
                    &&& final(self).terms@.last().cols == crate::term::min_cols(cols as int)
                    &&& final(self).terms@.last().title@ == title@
                    &&& final(self).terms@.last().alive
                    &&& *final(self) == (App {
                        terms: final(self).terms,
                        active_term: old(self).terms@.len() as usize,
                        focus: Focus::Terminal,
                        status: final(self).status,
                        ..*old(self)
                    })
                    &&& final(self).status@ == "● "@ + title@
                },
                Err(e) => *final(self) == (App { status: final(self).status, ..*old(self) })
                    && final(self).status@ == "Failed to open terminal: "@ + e@,
            },
    {
        match result {
            Ok(()) => {
                let status = concat_str("● ", title.as_str());
                let pane = TermPane::new(rows, cols, title);
                self.terms.push(pane);
                self.active_term = self.terms.len() - 1;
                self.focus = Focus::Terminal;
                self.status = status;
                assert(self.terms@.take(old(self).terms@.len() as int) =~= old(self).terms@);
            },
            Err(e) => {
                self.status = concat_str("Failed to open terminal: ", e.as_str());
            },
        }
    }

    /// Closing terminal `index`, as `close_terminal_at` does it.
    pub open spec fn terminal_closed(old: Self, new: Self, index: usize, r: Seq<ActionV>) -> bool {
        &&& (old.terms@.len() <= 1 ==> r.len() == 0 && new == (App {
                status: new.status,
                ..old
            }) && new.status@ == "Keep at least one terminal"@)
        &&& (old.terms@.len() > 1 && index >= old.terms@.len() ==> r.len() == 0 && new
                == old)
        &&& (old.terms@.len() > 1 && index < old.terms@.len() ==> {
                &&& new.terms@ == old.terms@.remove(index as int)
                &&& new == (App {
                    terms: new.terms,
                    active_term: active_after_close(
                        old.active_term as int,
                        index as int,
                        old.terms@.len() as int,
                    ) as usize,
                    status: new.status,
                    ..old
                })
                &&& new.status@ == "Closed "@ + old.terms@[index as int].title@
                &&& r == seq![ActionV::CloseTerminal { index }]
            })
    }

    /// Closes terminal `index`, but never the last one.
    #[verifier::rlimit(40)]
    pub fn close_terminal_at(&mut self, index: usize) -> (r: Vec<Action>)
        requires
            old(self).wf(),
        ensures
            final(self).wf(),
            Self::terminal_closed(*old(self), *final(self), index, views(r@)),
    {
        if self.terms.len() <= 1 {
            self.status = String::from_str("Keep at least one terminal");
            return Vec::new();
        }
        if index >= self.terms.len() {
            return Vec::new();
        }
        let status = concat_str("Closed ", self.terms[index].title.as_str());
        self.terms.remove(index);
        if self.active_term >= self.terms.len() {
            self.active_term = self.terms.len() - 1;
        } else if index < self.active_term {
            self.active_term = self.active_term - 1;
        }
        self.status = status;
        let r = vec![Action::CloseTerminal { index }];
        assert(views(r@) =~= seq![r@[0]@]);
        r
    }

    /// The last terminal is never closed, and after a close the active
    /// terminal is still one of those left.
    pub proof fn law_close_keeps_a_terminal(old: Self, new: Self, index: usize, r: Seq<ActionV>)
        requires
            old.wf(),
            Self::terminal_closed(old, new, index, r),
        ensures
            new.terms@.len() >= 1,
            new.active_term < new.terms@.len(),
            old.terms@.len() <= 1 ==> new.terms == old.terms,
            old.terms@.len() > 1 && index < old.terms@.len() ==> new.terms@.len() == old.terms@.len() - 1,
    {
    }

    /// Closing a terminal other than the active one keeps the same shell
    /// shown: the active terminal after the close is the one that was active.
    pub proof fn law_close_other_terminal_keeps_active(old: Self, new: Self, index: usize, r: Seq<ActionV>)
        requires
            old.wf(),
            old.terms@.len() > 1,
            index < old.terms@.len(),
            index != old.active_term,
            Self::terminal_closed(old, new, index, r),
        ensures
            new.active_term < new.terms@.len(),
            new.terms@[new.active_term as int] == old.terms@[old.active_term as int],
    {
    }

    /// Ctrl+Tab: the next terminal, after the last the first.
    pub fn next_terminal(&mut self)
        requires
            old(self).wf(),
        ensures
            final(self).wf(),
            *final(self) == (App {
                active_term: next_index(old(self).active_term as int, old(self).terms@.len() as int) as usize,
                focus: Focus::Terminal,
                ..*old(self)
            }),
    {
        let n = self.terms.len();
        self.active_term = (self.active_term + 1) % n;
        self.focus = Focus::Terminal;
    }

    /// Ctrl+Shift+Tab: the previous terminal, before the first the last.
    pub fn prev_terminal(&mut self)
        requires
            old(self).wf(),
        ensures
            final(self).wf(),
            *final(self) == (App {
                active_term: prev_index(old(self).active_term as int, old(self).terms@.len() as int) as usize,
                focus: Focus::Terminal,
                ..*old(self)
            }),
    {
        self.active_term = if self.active_term == 0 {
            self.terms.len() - 1
        } else {
            self.active_term - 1
        };
        self.focus = Focus::Terminal;
    }
}

/// `i` is the first branch marked current.
pub open spec fn first_current(bs: Seq<GitBranch>, i: int) -> bool {
    0 <= i < bs.len() && bs[i].current && forall|j: int| 0 <= j < i ==> !(#[trigger] bs[j]).current
}

/// The row of the current branch, or 0 when none is current.
pub open spec fn current_row(bs: Seq<GitBranch>) -> int {
    if exists|i: int| first_current(bs, i) {
        choose|i: int| first_current(bs, i)
    } else {
        0
    }
}

fn current_branch_row(bs: &Vec<GitBranch>) -> (r: usize)
    ensures
        r == current_row(bs@),
{
    let mut i: usize = 0;
    while i < bs.len()
        invariant
            i <= bs@.len(),
            forall|j: int| 0 <= j < i ==> !(#[trigger] bs@[j]).current,
        decreases bs@.len() - i,
    {
        if bs[i].current {
            assert(first_current(bs@, i as int));
            assert forall|k: int| first_current(bs@, k) implies k == i by {
                if k < i {
                    assert(!bs@[k].current);
                } else if k > i {
                    assert(!bs@[i as int].current);
                }
            }
            return i;
        }
        i = i + 1;
    }
    0
}

impl<L> App<L> {
    /// Ctrl+G with the git pane closed, as `open_git_pane` does it.
    pub open spec fn git_pane_opened(old: Self, new: Self, r: Seq<ActionV>) -> bool {
        &&& (new == (App {
                show_tree: true,
                show_git: true,
                show_help: false,
                show_themes: false,
                show_search: false,
                focus: Focus::Tree,
                status: new.status,
                ..old
            }))
        &&& (new.status@ == "Git · s stage · u unstage · b branches · l blame"@)
        &&& (r == seq![ActionV::LoadGit])
    }

    /// Ctrl+G: shows the git pane in the explorer column and asks for the git
    /// status.
    pub fn open_git_pane(&mut self) -> (r: Vec<Action>)
        ensures
            Self::git_pane_opened(*old(self), *final(self), views(r@)),
    {
        self.show_tree = true;
        self.show_git = true;
        self.show_help = false;
        self.show_themes = false;
        self.show_search = false;
        self.focus = Focus::Tree;
        self.status = String::from_str("Git · s stage · u unstage · b branches · l blame");
        let r = vec![Action::LoadGit];
        assert(views(r@) =~= seq![ActionV::LoadGit]);
        r
    }

    /// Back to the file explorer.
    pub fn close_git_pane(&mut self)
        ensures
            *final(self) == (App { show_git: false, status: final(self).status, ..*old(self) }),
            final(self).status@ == "Explorer · click a file to open"@,
    {
        self.show_git = false;
        self.status = String::from_str("Explorer · click a file to open");
    }

    /// A fresh `git status`: the branch, the explorer's markers and the list of
    /// changes are replaced; with the git pane open the branches are asked for
    /// too, else the cursor is kept on the list.
    pub fn git_loaded(&mut self, st: GitStatus) -> (r: Vec<Action>)
        requires
            old(self).wf(),
            st.map.wf(),
        ensures
            final(self).wf(),
            FileTree::git_set(old(self).tree, final(self).tree, st.map),
            final(self).branch == st.branch,
            final(self).git_entries == st.entries,
            *final(self) == (App {
                tree: final(self).tree,
                branch: final(self).branch,
                git_entries: final(self).git_entries,
                git_cursor: final(self).git_cursor,
                git_scroll: final(self).git_scroll,
                last_git_refresh: final(self).last_git_refresh,
                ..*old(self)
            }),
            old(self).show_git ==> views(r@) == seq![ActionV::LoadBranches { select_current: false }],
            !old(self).show_git ==> r@.len() == 0,
            (!old(self).show_git || old(self).git_tab == GitPaneTab::Changes) ==> {
                let len = list_len(old(self).git_tab, st.entries@.len() as int, old(self).git_branches@.len() as int);
                &&& final(self).git_cursor == clamped_cursor(old(self).git_cursor as int, len)
                &&& final(self).git_scroll == if len == 0 { 0 } else { old(self).git_scroll }
            },
            (old(self).show_git && old(self).git_tab == GitPaneTab::Branches) ==> final(self).git_cursor
                == old(self).git_cursor && final(self).git_scroll == old(self).git_scroll,
    {
        self.branch = st.branch;
        self.tree.set_git(st.map);
        self.git_entries = st.entries;
        self.last_git_refresh = crate::clock::instant_now();
        proof {
            crate::tree::lemma_visible_nonempty(self.tree.root_view());
        }
        if self.show_git {
            if self.git_tab == GitPaneTab::Changes {
                self.clamp_git_cursor();
            }
            let r = vec![Action::LoadBranches { select_current: false }];
            assert(views(r@) =~= seq![ActionV::LoadBranches { select_current: false }]);
            r
        } else {
            self.clamp_git_cursor();
            Vec::new()
        }
    }

    /// The branches were listed. For a switch to the branch list the cursor
    /// goes to the current branch (else the first) and the list scrolls to
    /// show it; otherwise the cursor is kept on the list.
    pub fn branches_loaded(&mut self, branches: Vec<GitBranch>, select_current: bool)
        requires
            old(self).wf(),
        ensures
            final(self).wf(),
            final(self).git_branches == branches,
            *final(self) == (App {
                git_branches: final(self).git_branches,
                git_cursor: final(self).git_cursor,
                git_scroll: final(self).git_scroll,
                ..*old(self)
            }),
            select_current ==> {
                let c = clamped_cursor(current_row(branches@), final(self).git_len());
                &&& final(self).git_cursor == c
                &&& final(self).git_scroll == scroll_to_show(
                    c,
                    0,
                    old(self).areas.tree_inner.height as int,
                )
            },
            !select_current ==> {
                let len = list_len(old(self).git_tab, old(self).git_entries@.len() as int, branches@.len() as int);
                &&& final(self).git_cursor == clamped_cursor(old(self).git_cursor as int, len)
                &&& final(self).git_scroll == if len == 0 { 0 } else { old(self).git_scroll }
            },
    {
        let row = current_branch_row(&branches);
        self.git_branches = branches;
        if select_current {
            self.git_cursor = row;
            self.git_scroll = 0;
            self.clamp_git_cursor();
            let _n = self.git_list_len();
            let h = self.areas.tree_inner.height as usize;
            self.ensure_git_visible(h);
        } else {
            self.clamp_git_cursor();
        }
    }
}

/// How a finished git command is reported: `done` and the file or branch on
/// success, `failed` and the error otherwise.
pub open spec fn outcome_status(done: Seq<char>, failed: Seq<char>, subject: Seq<char>, result: Result<(), String>) -> Seq<char> {
    match result {
        Ok(()) => done + subject,
        Err(e) => failed + e@,
    }
}

impl<L> App<L> {
    /// `s` in the git pane, as `stage_selected` does it.
    pub open spec fn stage_post(old: Self, new: Self, r: Seq<ActionV>) -> bool {
        &&& old.git_cursor < old.git_entries@.len() ==> new == old && r == seq![
            ActionV::Stage {
                path: old.git_entries@[old.git_cursor as int].path@,
                rel: old.git_entries@[old.git_cursor as int].rel@,
            },
        ]
        &&& old.git_cursor >= old.git_entries@.len() ==> r.len() == 0 && new == (App { status: new.status, ..old })
            && new.status@ == "No file selected"@
    }

    /// `u` in the git pane, as `unstage_selected` does it.
    pub open spec fn unstage_post(old: Self, new: Self, r: Seq<ActionV>) -> bool {
        &&& old.git_cursor < old.git_entries@.len() ==> new == old && r == seq![
            ActionV::Unstage {
                path: old.git_entries@[old.git_cursor as int].path@,
                rel: old.git_entries@[old.git_cursor as int].rel@,
            },
        ]
        &&& old.git_cursor >= old.git_entries@.len() ==> r.len() == 0 && new == (App { status: new.status, ..old })
            && new.status@ == "No file selected"@
    }

    /// `s` in the git pane: asks to stage the file under the cursor.
    pub fn stage_selected(&mut self) -> (r: Vec<Action>)
        ensures
            Self::stage_post(*old(self), *final(self), views(r@)),
    {
        if self.git_cursor < self.git_entries.len() {
            let e = &self.git_entries[self.git_cursor];
            let r = vec![Action::Stage { path: e.path.clone(), rel: e.rel.clone() }];
            assert(views(r@) =~= seq![r@[0]@]);
            r
        } else {
            self.status = String::from_str("No file selected");
            Vec::new()
        }
    }

    /// `u` in the git pane: asks to unstage the file under the cursor.
    pub fn unstage_selected(&mut self) -> (r: Vec<Action>)
        ensures
            Self::unstage_post(*old(self), *final(self), views(r@)),
    {
        if self.git_cursor < self.git_entries.len() {
            let e = &self.git_entries[self.git_cursor];
            let r = vec![Action::Unstage { path: e.path.clone(), rel: e.rel.clone() }];
            assert(views(r@) =~= seq![r@[0]@]);
            r
        } else {
            self.status = String::from_str("No file selected");
            Vec::new()
        }
    }

    /// Reports a finished git command and, when it succeeded, asks for the
    /// git status again.
    pub(crate) fn git_done(&mut self, done: &str, failed: &str, subject: &str, result: Result<(), String>) -> (r: Vec<Action>)
        ensures
            *final(self) == (App { status: final(self).status, ..*old(self) }),
            final(self).status@ == outcome_status(done@, failed@, subject@, result),
            result is Ok ==> views(r@) == seq![ActionV::LoadGit],
            result is Err ==> r@.len() == 0,
    {
        match result {
            Ok(()) => {
                self.status = concat_str(done, subject);
                let r = vec![Action::LoadGit];
                assert(views(r@) =~= seq![ActionV::LoadGit]);
                r
            },
            Err(e) => {
                self.status = concat_str(failed, e.as_str());
                Vec::new()
            },
        }
    }

    /// The file `rel` was staged (`Ok`) or not.
    pub fn staged(&mut self, rel: String, result: Result<(), String>) -> (r: Vec<Action>)
        ensures
            *final(self) == (App { status: final(self).status, ..*old(self) }),
            final(self).status@ == outcome_status("Staged · "@, "Stage failed · "@, rel@, result),
            result is Ok ==> views(r@) == seq![ActionV::LoadGit],
            result is Err ==> r@.len() == 0,
    {
        self.git_done("Staged · ", "Stage failed · ", rel.as_str(), result)
    }

    /// The file `rel` was unstaged (`Ok`) or not.
    pub fn unstaged(&mut self, rel: String, result: Result<(), String>) -> (r: Vec<Action>)
        ensures
            *final(self) == (App { status: final(self).status, ..*old(self) }),
            final(self).status@ == outcome_status("Unstaged · "@, "Unstage failed · "@, rel@, result),
            result is Ok ==> views(r@) == seq![ActionV::LoadGit],
            result is Err ==> r@.len() == 0,
    {
        self.git_done("Unstaged · ", "Unstage failed · ", rel.as_str(), result)
    }

    /// Enter on the branch list, as `checkout_selected_branch` does it.
    pub open spec fn checkout_post(old: Self, new: Self, r: Seq<ActionV>) -> bool {
        &&& old.git_cursor >= old.git_branches@.len() ==> r.len() == 0 && new == (App { status: new.status, ..old })
            && new.status@ == "No branch selected"@
        &&& old.git_cursor < old.git_branches@.len() ==> {
            let b = old.git_branches@[old.git_cursor as int];
            &&& b.current ==> r.len() == 0 && new == (App { status: new.status, ..old }) && new.status@
                == "Already on · "@ + b.name@
            &&& !b.current ==> new == old && r == seq![ActionV::Checkout { name: b.name@ }]
        }
    }

    /// Enter on the branch list: asks to check out the branch under the
    /// cursor, unless it is the current one.
    pub fn checkout_selected_branch(&mut self) -> (r: Vec<Action>)
        ensures
            Self::checkout_post(*old(self), *final(self), views(r@)),
    {
        if self.git_cursor >= self.git_branches.len() {
            self.status = String::from_str("No branch selected");
            return Vec::new();
        }
        let b = &self.git_branches[self.git_cursor];
        if b.current {
            self.status = concat_str("Already on · ", b.name.as_str());
            return Vec::new();
        }
        let r = vec![Action::Checkout { name: b.name.clone() }];
        assert(views(r@) =~= seq![r@[0]@]);
        r
    }

    /// The branch `name` was checked out (`Ok`) or not; a failure shows the
    /// first line of git's message.
    pub fn checked_out(&mut self, name: String, result: Result<(), String>) -> (r: Vec<Action>)
        ensures
            *final(self) == (App { status: final(self).status, ..*old(self) }),
            result is Ok ==> final(self).status@ == "Checked out · "@ + name@ && views(r@) == seq![ActionV::LoadGit],
            result matches Err(e) ==> r@.len() == 0 && final(self).status@ == "Checkout failed · "@ + (if lines(
                e@,
            ).len() > 0 {
                lines(e@)[0]
            } else {
                "checkout failed"@
            }),
    {
        match result {
            Ok(()) => self.git_done("Checked out · ", "", name.as_str(), Ok(())),
            Err(e) => {
                let short = match first_line(e.as_str()) {
                    Some(l) => l,
                    None => String::from_str("checkout failed"),
                };
                self.status = concat_str("Checkout failed · ", short.as_str());
                Vec::new()
            },
        }
    }
}

/// The status line for a diff of `kind` of the file `rel`.
pub open spec fn diff_status(kind: DiffKind, rel: Seq<char>) -> Seq<char> {
    kind.label_spec() + " · "@ + rel
}

impl<L> App<L> {
    /// Enter on the list of changes: opens the file under the cursor.
    pub fn open_selected_git_file(&mut self) -> (r: Vec<Action>)
        ensures
            old(self).git_cursor < old(self).git_entries@.len() ==> Self::file_opened(
                *old(self),
                *final(self),
                old(self).git_entries@[old(self).git_cursor as int].path@,
                views(r@),
            ),
            old(self).git_cursor >= old(self).git_entries@.len() ==> r@.len() == 0 && *final(self) == *old(self),
    {
        if self.git_cursor < self.git_entries.len() {
            let p = self.git_entries[self.git_cursor].path.clone();
            self.open_file(p)
        } else {
            Vec::new()
        }
    }

    /// `d`, `D` or `h` on the list of changes, as `diff_selected` does it.
    pub open spec fn diff_post(old: Self, new: Self, kind: DiffKind, r: Seq<ActionV>) -> bool {
        &&& (old.git_cursor >= old.git_entries@.len() ==> r.len() == 0 && new == (App {
            status: new.status,
            ..old
        }) && new.status@ == "No file selected"@)
        &&& (old.git_cursor < old.git_entries@.len() ==> {
            let e = old.git_entries@[old.git_cursor as int];
            exists|mid: Self, opened: Seq<ActionV>, changed: bool|
                #![trigger Self::file_opened(old, mid, e.path@, opened), FileViewer::<L>::diff_set(mid.viewer, new.viewer, kind, changed)]
                {
                    &&& Self::file_opened(old, mid, e.path@, opened)
                    &&& FileViewer::<L>::diff_set(mid.viewer, new.viewer, kind, changed)
                    &&& new == (App { viewer: new.viewer, status: new.status, ..mid })
                    &&& new.status@ == diff_status(kind, e.rel@)
                    &&& r == if changed {
                        opened.push(ActionV::LoadTab { index: new.viewer.active })
                    } else {
                        opened
                    }
                }
        })
    }

    /// `d`, `D` or `h` on the list of changes: opens the file under the
    /// cursor showing its diff of kind `kind`.
    pub fn diff_selected(&mut self, kind: DiffKind) -> (r: Vec<Action>)
        requires
            old(self).wf(),
        ensures
            final(self).wf(),
            Self::diff_post(*old(self), *final(self), kind, views(r@)),
    {
        if self.git_cursor >= self.git_entries.len() {
            self.status = String::from_str("No file selected");
            return Vec::new();
        }
        let path = self.git_entries[self.git_cursor].path.clone();
        let rel = self.git_entries[self.git_cursor].rel.clone();
        let mut r = self.open_file(path);
        let ghost mid = *self;
        let ghost opened = views(r@);
        let changed = self.viewer.set_diff_kind(kind);
        if changed {
            r.push(Action::LoadTab { index: self.viewer.active });
        }
        self.focus = Focus::Viewer;
        let mut st = String::from_str(kind.label());
        push_str(&mut st, " · ");
        push_str(&mut st, rel.as_str());
        self.status = st;
        proof {
            if changed {
                assert(views(r@) =~= opened.push(ActionV::LoadTab { index: self.viewer.active }));
            } else {
                assert(views(r@) =~= opened);
            }
            assert(Self::file_opened(*old(self), mid, path@, opened));
            assert(FileViewer::<L>::diff_set(mid.viewer, self.viewer, kind, changed));
        }
        r
    }

    /// `l`, or Ctrl+L outside the terminal, as `blame_active_or_selected` does it.
    pub open spec fn blame_post(old: Self, new: Self, r: Seq<ActionV>) -> bool {
        exists|mid: Self, opened: Seq<ActionV>|
            #![trigger Self::blame_opened(old, mid, opened)]
            {
                &&& Self::blame_opened(old, mid, opened)
                &&& mid.viewer.tabs@.len() == 0 ==> r == opened && new == (App {
                    status: new.status,
                    ..mid
                }) && new.status@ == "Open a file first for blame"@
                &&& mid.viewer.tabs@.len() > 0 ==> exists|changed: bool|
                    #![trigger FileViewer::<L>::blame_shown(mid.viewer, new.viewer, changed)]
                    {
                        &&& FileViewer::<L>::blame_shown(mid.viewer, new.viewer, changed)
                        &&& new == (App {
                            viewer: new.viewer,
                            focus: Focus::Viewer,
                            status: new.status,
                            ..mid
                        })
                        &&& new.status@ == "Blame · "@ + new.viewer.active_tab().title@
                        &&& r == if changed {
                            opened.push(ActionV::LoadTab { index: new.viewer.active })
                        } else {
                            opened
                        }
                    }
            }
    }

    /// `l`, or Ctrl+L outside the terminal: blame for the file under the
    /// cursor of the list of changes, else for the open file.
    pub fn blame_active_or_selected(&mut self) -> (r: Vec<Action>)
        requires
            old(self).wf(),
        ensures
            final(self).wf(),
            Self::blame_post(*old(self), *final(self), views(r@)),
    {
        let mut r: Vec<Action> = Vec::new();
        if self.git_tab == GitPaneTab::Changes && self.git_cursor < self.git_entries.len() {
            let p = self.git_entries[self.git_cursor].path.clone();
            r = self.open_file(p);
        }
        let ghost mid = *self;
        let ghost opened = views(r@);
        assert(Self::blame_opened(*old(self), mid, opened));
        if self.viewer.is_empty() {
            self.status = String::from_str("Open a file first for blame");
            return r;
        }
        let changed = self.viewer.show_blame();
        if changed {
            r.push(Action::LoadTab { index: self.viewer.active });
        }
        self.focus = Focus::Viewer;
        self.status = concat_str("Blame · ", self.viewer.title());
        proof {
            if changed {
                assert(views(r@) =~= opened.push(ActionV::LoadTab { index: self.viewer.active }));
            } else {
                assert(views(r@) =~= opened);
            }
            assert(FileViewer::<L>::blame_shown(mid.viewer, self.viewer, changed));
        }
        r
    }

    /// The first step of blame: on the list of changes with a file under the
    /// cursor, that file is opened; otherwise nothing changes.
    pub open spec fn blame_opened(old: Self, mid: Self, opened: Seq<ActionV>) -> bool {
        if old.git_tab == GitPaneTab::Changes && old.git_cursor < old.git_entries@.len() {
            Self::file_opened(old, mid, old.git_entries@[old.git_cursor as int].path@, opened)
        } else {
            mid == old && opened.len() == 0
        }
    }
}

/// Guards that hold for any list a machine can hold; they keep the
/// explorer's arithmetic within `isize` and `usize`.
pub open spec fn tree_in_range(t: FileTree, height: int) -> bool {
    &&& t.flat@.len() <= isize::MAX
    &&& t.scroll + height <= usize::MAX
}

/// The same for scrolling by at most a screen.
pub open spec fn scroll_in_range(t: FileTree) -> bool {
    &&& t.flat@.len() <= isize::MAX
    &&& t.scroll + 0x1_0000 <= isize::MAX
}

impl<L> App<L> {
    /// The first directory on the way to `path` whose entries are still to be
    /// read; see `FileTree::first_unloaded_on`.
    pub fn unloaded_on(&self, path: &str) -> (r: Option<String>)
        ensures
            crate::paths::strip_prefix(path@, self.tree.root.path@) is None ==> r is None,
            crate::paths::strip_prefix(path@, self.tree.root.path@) matches Some(rel) ==> {
                let cs = crate::tree::cursors(self.tree.root.path@, rel);
                &&& r matches Some(d) ==> cs.contains(d@) && unloaded_dir(self.tree.root_view(), d@)
                &&& r is None ==> forall|k: int| 0 <= k < cs.len() ==> !unloaded_dir(self.tree.root_view(), #[trigger] cs[k])
            },
    {
        self.tree.first_unloaded_on(path)
    }

    /// Expands the explorer down to `path`, once the directories on the way
    /// are loaded, and selects its row.
    pub fn reveal_file(&mut self, path: &str)
        requires
            old(self).wf(),
        ensures
            final(self).wf(),
            FileTree::revealed(old(self).tree, final(self).tree, path@),
            *final(self) == (App { tree: final(self).tree, ..*old(self) }),
    {
        self.tree.reveal_path(path);
        proof {
            crate::tree::lemma_visible_nonempty(self.tree.root_view());
            crate::tree::lemma_row_of_bound(self.tree.rows(), path@);
        }
    }

    /// The selection moved by `delta` and was scrolled into `height` rows.
    pub open spec fn tree_moved(old: Self, new: Self, delta: isize, height: usize) -> bool {
        &&& new == (App { tree: new.tree, ..old })
        &&& tree_in_range(old.tree, height as int) ==> exists|t: FileTree|
            #![trigger FileTree::moved(old.tree, t, delta)]
            FileTree::moved(old.tree, t, delta) && FileTree::made_visible(t, new.tree, height)
        &&& !tree_in_range(old.tree, height as int) ==> new == old
    }

    /// The explorer scrolled by `delta` rows of `height`.
    pub open spec fn tree_scrolled(old: Self, new: Self, delta: isize, height: usize) -> bool {
        &&& new == (App { tree: new.tree, ..old })
        &&& scroll_in_range(old.tree) ==> FileTree::scrolled(old.tree, new.tree, delta, height)
        &&& !scroll_in_range(old.tree) ==> new == old
    }

    /// The selection was scrolled into `height` rows.
    pub open spec fn tree_shown(old: Self, new: Self, height: usize) -> bool {
        &&& new == (App { tree: new.tree, ..old })
        &&& tree_in_range(old.tree, height as int) ==> FileTree::made_visible(old.tree, new.tree, height)
        &&& !tree_in_range(old.tree, height as int) ==> new == old
    }

    /// Moves the explorer's selection by `delta` rows and scrolls to it.
    pub(crate) fn tree_move(&mut self, delta: isize, height: usize)
        requires
            old(self).wf(),
            delta == 1 || delta == -1,
        ensures
            final(self).wf(),
            Self::tree_moved(*old(self), *final(self), delta, height),
    {
        if self.tree.flat.len() > isize::MAX as usize || self.tree.scroll > usize::MAX - height {
            return;
        }
        self.tree.move_sel(delta);
        let ghost t = self.tree;
        self.tree.ensure_visible(height);
        assert(FileTree::moved(old(self).tree, t, delta));
    }

    /// Scrolls the explorer by `delta` rows.
    pub(crate) fn tree_scroll(&mut self, delta: isize, height: usize)
        requires
            old(self).wf(),
            -0x1_0000 <= delta <= 0x1_0000,
        ensures
            final(self).wf(),
            Self::tree_scrolled(*old(self), *final(self), delta, height),
    {
        if self.tree.flat.len() > isize::MAX as usize || self.tree.scroll > isize::MAX as usize - 0x1_0000 {
            return;
        }
        self.tree.scroll_by(delta, height);
    }

    /// Keeps the explorer's selection in view.
    pub fn tree_show_selected(&mut self, height: usize)
        requires
            old(self).wf(),
        ensures
            final(self).wf(),
            Self::tree_shown(*old(self), *final(self), height),
    {
        if self.tree.flat.len() > isize::MAX as usize || self.tree.scroll > usize::MAX - height {
            return;
        }
        self.tree.ensure_visible(height);
    }

    /// Enter on the explorer: a directory whose entries are not loaded is
    /// read first; else it opens or closes, or the file opens; then the
    /// selection is kept in view.
    #[verifier::rlimit(60)]
    pub fn tree_toggle(&mut self) -> (r: Vec<Action>)
        requires
            old(self).wf(),
        ensures
            final(self).wf(),
            Self::toggle_post(*old(self), *final(self), views(r@)),
    {
        let height = self.areas.tree_inner.height as usize;
        let sel = self.tree.selected;
        if self.tree.flat[sel].is_dir {
            let p = chars_of(self.tree.flat[sel].node_path.as_str());
            if self.tree.is_unloaded_dir(&p) {
                let path = self.tree.flat[sel].node_path.clone();
                let r = vec![Action::LoadDir { path, then: AfterLoad::Toggle }];
                assert(views(r@) =~= seq![r@[0]@]);
                return r;
            }
        }
        let p = self.tree.toggle_selected();
        let ghost t = self.tree;
        proof {
            crate::tree::lemma_visible_nonempty(self.tree.root_view());
        }
        let r = match p {
            Some(path) => self.open_file(path),
            None => Vec::new(),
        };
        let ghost mid = *self;
        self.tree_show_selected(height);
        assert(Self::toggle_step(*old(self), t, p, mid, views(r@)));
        r
    }

    /// Enter on the explorer, as `tree_toggle` does it.
    pub open spec fn toggle_post(old: Self, new: Self, r: Seq<ActionV>) -> bool {
        let row = old.tree.rows()[old.tree.selected as int];
        if row.3 && unloaded_dir(old.tree.root_view(), row.1) {
            new == old && r == seq![
                ActionV::LoadDir { path: row.1, then: AfterLoad::Toggle },
            ]
        } else {
            exists|t: FileTree, p: Option<String>, mid: Self, opened: Seq<ActionV>|
                #![trigger Self::toggle_step(old, t, p, mid, opened)]
                {
                    &&& Self::toggle_step(old, t, p, mid, opened)
                    &&& new == (App { tree: new.tree, ..mid })
                    &&& (tree_in_range(mid.tree, old.areas.tree_inner.height as int) ==> FileTree::made_visible(
                        mid.tree,
                        new.tree,
                        old.areas.tree_inner.height as usize,
                    ))
                    &&& (!tree_in_range(mid.tree, old.areas.tree_inner.height as int) ==> new.tree == mid.tree)
                    &&& r == opened
                }
        }
    }

    /// Toggling the selected row, then opening the file it names if it is one.
    pub open spec fn toggle_step(old: Self, t: FileTree, p: Option<String>, mid: Self, opened: Seq<ActionV>) -> bool {
        &&& FileTree::selection_toggled(old.tree, t, p)
        &&& match p {
            None => mid == (App { tree: t, ..old }) && opened.len() == 0,
            Some(q) => Self::file_opened(App { tree: t, ..old }, mid, q@, opened),
        }
    }
}

impl<L> App<L> {
    /// A click on explorer row `index`: a directory whose entries are not
    /// loaded is read first; else the row is selected and opens or closes, or
    /// its file opens.
    pub fn tree_click(&mut self, index: usize) -> (r: Vec<Action>)
        requires
            old(self).wf(),
        ensures
            final(self).wf(),
            Self::click_post(*old(self), *final(self), index, views(r@)),
    {
        if index < self.tree.flat.len() && self.tree.flat[index].is_dir {
            let p = chars_of(self.tree.flat[index].node_path.as_str());
            if self.tree.is_unloaded_dir(&p) {
                let path = self.tree.flat[index].node_path.clone();
                let r = vec![Action::LoadDir { path, then: AfterLoad::Click { index } }];
                assert(views(r@) =~= seq![r@[0]@]);
                return r;
            }
        }
        let p = self.tree.open_at_flat_index(index);
        let ghost t = self.tree;
        proof {
            crate::tree::lemma_visible_nonempty(self.tree.root_view());
        }
        let r = match p {
            Some(path) => self.open_file(path),
            None => Vec::new(),
        };
        assert(Self::click_step(*old(self), index, t, p, *self, views(r@)));
        r
    }

    /// Selecting and toggling row `index`, then opening the file it names.
    pub open spec fn click_step(old: Self, index: usize, t: FileTree, p: Option<String>, mid: Self, opened: Seq<ActionV>) -> bool {
        &&& FileTree::opened_at(old.tree, t, index, p)
        &&& match p {
            None => mid == (App { tree: t, ..old }) && opened.len() == 0,
            Some(q) => Self::file_opened(App { tree: t, ..old }, mid, q@, opened),
        }
    }

    /// A click on explorer row `index`, as `tree_click` does it.
    pub open spec fn click_post(old: Self, new: Self, index: usize, r: Seq<ActionV>) -> bool {
        if index < old.tree.flat@.len() && old.tree.rows()[index as int].3 && unloaded_dir(
            old.tree.root_view(),
            old.tree.rows()[index as int].1,
        ) {
            new == old && r == seq![
                ActionV::LoadDir { path: old.tree.rows()[index as int].1, then: AfterLoad::Click { index } },
            ]
        } else {
            exists|t: FileTree, p: Option<String>|
                #![trigger Self::click_step(old, index, t, p, new, r)]
                Self::click_step(old, index, t, p, new, r)
        }
    }

    /// The entries of the directory `path` were read: they are attached, the
    /// rows rebuilt, and what waited for them is done.
    pub fn dir_loaded(&mut self, path: String, entries: Vec<DirEntry>, then: Option<AfterLoad>) -> (r: Vec<Action>)
        requires
            old(self).wf(),
        ensures
            final(self).wf(),
            exists|t1: FileTree, t2: FileTree|
                #![trigger FileTree::children_attached(old(self).tree, t1, path@, entries@), FileTree::flat_rebuilt(t1, t2)]
                {
                    &&& FileTree::children_attached(old(self).tree, t1, path@, entries@)
                    &&& FileTree::flat_rebuilt(t1, t2)
                    &&& match then {
                        None => *final(self) == (App { tree: t2, ..*old(self) }) && r@.len() == 0,
                        Some(AfterLoad::Toggle) => Self::toggle_post(App { tree: t2, ..*old(self) }, *final(self), views(r@)),
                        Some(AfterLoad::Click { index }) => Self::click_post(
                            App { tree: t2, ..*old(self) },
                            *final(self),
                            index,
                            views(r@),
                        ),
                    }
                },
    {
        self.tree.attach_children(path.as_str(), entries);
        let ghost t1 = self.tree;
        self.tree.rebuild_flat();
        let ghost t2 = self.tree;
        proof {
            crate::tree::lemma_visible_nonempty(self.tree.root_view());
        }
        let r = match then {
            None => Vec::new(),
            Some(AfterLoad::Toggle) => self.tree_toggle(),
            Some(AfterLoad::Click { index }) => self.tree_click(index),
        };
        assert(FileTree::children_attached(old(self).tree, t1, path@, entries@));
        assert(FileTree::flat_rebuilt(t1, t2));
        r
    }
}

} // verus!
