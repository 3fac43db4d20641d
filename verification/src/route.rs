//! Where a key goes: the overlays first, then the keys that work anywhere,
//! then the pane that has focus.
use vstd::prelude::*;

use crate::input::term_bytes;
use crate::text::concat_str;
use crate::theme::{palette_at, palette_index, Theme};
use crate::viewer::FileViewer;
use crate::workbench::{next_focus, next_index, prev_index, theme_status, views, Action, ActionV, App, Focus, Key, KeyCode, Mods};

verus! {

/// What a key does when no overlay is shown.
#[derive(Debug, Clone, Copy, PartialEq, Eq, Structural)]
pub enum Route {
    OpenHelp,
    OpenSearch,
    ToggleGit,
    Blame,
    OpenThemes,
    CycleTheme,
    LeaveTerminal,
    Quit,
    AddTerminal,
    CloseTerminal,
    CloseFile,
    CycleFocus,
    PrevTerminal,
    NextTerminal,
    ToggleTree,
    CycleDiff,
    NextTab,
    PrevTab,
    SelectTerminal { index: usize },
    Nothing,
    Terminal,
    Git,
    Tree,
    Viewer,
}

/// The digit that `c` is, as `char::to_digit(10)` reads it.
pub open spec fn digit_of(c: char) -> Option<int> {
    if '0' <= c <= '9' {
        Some(c as int - 48)
    } else {
        None
    }
}

/// Where `key` goes with no overlay shown, given the focus, whether the git
/// pane is open and how many terminals there are.
pub open spec fn route_of(focus: Focus, show_git: bool, terms: int, key: Key) -> Route {
    let ctrl = key.mods.ctrl;
    let code = key.code;
    let term = focus == Focus::Terminal;
    if code == KeyCode::F(1) || (ctrl && code == KeyCode::Char('/')) || (code == KeyCode::Char('?') && !term) {
        Route::OpenHelp
    } else if ctrl && code == KeyCode::Char('o') {
        Route::OpenSearch
    } else if ctrl && code == KeyCode::Char('g') {
        Route::ToggleGit
    } else if ctrl && code == KeyCode::Char('l') && !term {
        Route::Blame
    } else if ctrl && code == KeyCode::Char('p') {
        Route::OpenThemes
    } else if ctrl && code == KeyCode::Char('0') {
        Route::CycleTheme
    } else if code == KeyCode::Esc && term && !ctrl {
        Route::LeaveTerminal
    } else if ctrl && code == KeyCode::Char('q') {
        Route::Quit
    } else if ctrl && (code == KeyCode::Char('n') || code == KeyCode::Char('`')) {
        Route::AddTerminal
    } else if ctrl && code == KeyCode::Char('w') {
        if term {
            Route::CloseTerminal
        } else {
            Route::CloseFile
        }
    } else if ctrl && code == KeyCode::Char('t') && !key.mods.shift {
        Route::CycleFocus
    } else if ctrl && code == KeyCode::Tab && key.mods.shift {
        Route::PrevTerminal
    } else if ctrl && (code == KeyCode::Tab || code == KeyCode::BackTab) {
        Route::NextTerminal
    } else if ctrl && code == KeyCode::Char('b') {
        Route::ToggleTree
    } else if ctrl && code == KeyCode::Char('d') && !term {
        Route::CycleDiff
    } else if ctrl && code == KeyCode::Char(']') && focus == Focus::Viewer {
        Route::NextTab
    } else if ctrl && code == KeyCode::Char('[') && focus == Focus::Viewer {
        Route::PrevTab
    } else if key.mods.alt && (code matches KeyCode::Char(c) && digit_of(c) is Some) {
        let d = digit_of(code->Char_0)->0;
        let idx = if d > 0 { d - 1 } else { 0 };
        if idx < terms {
            Route::SelectTerminal { index: idx as usize }
        } else {
            Route::Nothing
        }
    } else if term {
        Route::Terminal
    } else if focus == Focus::Tree && show_git {
        Route::Git
    } else if focus == Focus::Tree {
        Route::Tree
    } else {
        Route::Viewer
    }
}

/// The status line after Ctrl+T leaves the focus on `f`.
pub open spec fn focus_status(f: Focus, show_git: bool) -> Seq<char> {
    match f {
        Focus::Tree => if show_git {
            "Git · s stage · Tab branches · Esc files"@
        } else {
            "Explorer · click a file to open"@
        },
        Focus::Viewer => "Editor · scroll to read · Ctrl+D diff"@,
        Focus::Terminal => "Terminal · type here (Esc to leave)"@,
    }
}

impl<L> App<L> {
    fn route(&self, key: Key) -> (r: Route)
        requires
            self.wf(),
        ensures
            r == route_of(self.focus, self.show_git, self.terms@.len() as int, key),
    {
        let ctrl = key.mods.ctrl;
        let code = key.code;
        let term = self.focus == Focus::Terminal;
        if code == KeyCode::F(1) || (ctrl && code == KeyCode::Char('/')) || (code == KeyCode::Char('?') && !term) {
            Route::OpenHelp
        } else if ctrl && code == KeyCode::Char('o') {
            Route::OpenSearch
        } else if ctrl && code == KeyCode::Char('g') {
            Route::ToggleGit
        } else if ctrl && code == KeyCode::Char('l') && !term {
            Route::Blame
        } else if ctrl && code == KeyCode::Char('p') {
            Route::OpenThemes
        } else if ctrl && code == KeyCode::Char('0') {
            Route::CycleTheme
        } else if code == KeyCode::Esc && term && !ctrl {
            Route::LeaveTerminal
        } else if ctrl && code == KeyCode::Char('q') {
            Route::Quit
        } else if ctrl && (code == KeyCode::Char('n') || code == KeyCode::Char('`')) {
            Route::AddTerminal
        } else if ctrl && code == KeyCode::Char('w') {
            if term {
                Route::CloseTerminal
            } else {
                Route::CloseFile
            }
        } else if ctrl && code == KeyCode::Char('t') && !key.mods.shift {
            Route::CycleFocus
        } else if ctrl && code == KeyCode::Tab && key.mods.shift {
            Route::PrevTerminal
        } else if ctrl && (code == KeyCode::Tab || code == KeyCode::BackTab) {
            Route::NextTerminal
        } else if ctrl && code == KeyCode::Char('b') {
            Route::ToggleTree
        } else if ctrl && code == KeyCode::Char('d') && !term {
            Route::CycleDiff
        } else if ctrl && code == KeyCode::Char(']') && self.focus == Focus::Viewer {
            Route::NextTab
        } else if ctrl && code == KeyCode::Char('[') && self.focus == Focus::Viewer {
            Route::PrevTab
        } else if key.mods.alt && (match code {
            KeyCode::Char(c) => '0' <= c && c <= '9',
            _ => false,
        }) {
            let d: usize = match code {
                KeyCode::Char(c) => (c as u32 - 48) as usize,
                _ => 0,
            };
            let idx = d.saturating_sub(1);
            if idx < self.terms.len() {
                Route::SelectTerminal { index: idx }
            } else {
                Route::Nothing
            }
        } else if term {
            Route::Terminal
        } else if self.focus == Focus::Tree && self.show_git {
            Route::Git
        } else if self.focus == Focus::Tree {
            Route::Tree
        } else {
            Route::Viewer
        }
    }
}


/// What a key sends to the active terminal, if its shell still runs.
pub open spec fn term_writes<L>(a: App<L>, key: Key) -> Seq<ActionV> {
    match term_bytes(key) {
        Some(b) => if a.terms@[a.active_term as int].alive {
            seq![ActionV::Write { index: a.active_term, bytes: b }]
        } else {
            Seq::empty()
        },
        None => Seq::empty(),
    }
}

impl<L> App<L> {
    /// The keys that work anywhere, as `do_route` and `do_route_more` handle
    /// them.
    pub open spec fn route_post(old: Self, new: Self, route: Route, r: Seq<ActionV>) -> bool {
        match route {
            Route::OpenHelp => new == (App { show_help: true, ..old }) && r.len() == 0,
            Route::OpenSearch => Self::search_opened(old, new, r),
            Route::ToggleGit => if old.show_git {
                new == (App { show_git: false, status: new.status, ..old }) && new.status@
                    == "Explorer · click a file to open"@ && r.len() == 0
            } else {
                Self::git_pane_opened(old, new, r)
            },
            Route::Blame => Self::blame_post(old, new, r),
            Route::OpenThemes => new == (App {
                show_themes: true,
                theme_cursor: palette_index(old.theme.current) as usize,
                ..old
            }) && r.len() == 0,
            Route::CycleTheme => {
                let id = palette_at((palette_index(old.theme.current) + 1) % 8);
                &&& new == (App { theme: Theme { current: id }, status: new.status, ..old })
                &&& new.status@ == theme_status(id)
                &&& r == seq![ActionV::SaveTheme { id }]
            },
            Route::LeaveTerminal => new == (App { focus: Focus::Viewer, status: new.status, ..old }) && new.status@
                == "Left terminal · press Ctrl+T to return"@ && r.len() == 0,
            Route::Quit => new == (App { should_quit: true, ..old }) && r.len() == 0,
            Route::AddTerminal => Self::terminal_added(old, new, r),
            Route::CloseTerminal => Self::terminal_closed(old, new, old.active_term, r),
            Route::CloseFile => r.len() == 0 && exists|c: bool|
                #![trigger FileViewer::<L>::closed_active(old.viewer, new.viewer, c)]
                {
                    &&& FileViewer::<L>::closed_active(old.viewer, new.viewer, c)
                    &&& c ==> new == (App { viewer: new.viewer, status: new.status, ..old }) && new.status@
                        == "Closed file · click explorer to open another"@
                    &&& !c ==> new == (App { viewer: new.viewer, ..old })
                },
            Route::CycleFocus => new == (App { focus: next_focus(old.focus), status: new.status, ..old })
                && new.status@ == focus_status(next_focus(old.focus), old.show_git) && r.len() == 0,
            Route::PrevTerminal => new == (App {
                active_term: prev_index(old.active_term as int, old.terms@.len() as int) as usize,
                focus: Focus::Terminal,
                ..old
            }) && r.len() == 0,
            Route::NextTerminal => new == (App {
                active_term: next_index(old.active_term as int, old.terms@.len() as int) as usize,
                focus: Focus::Terminal,
                ..old
            }) && r.len() == 0,
            Route::ToggleTree => new == (App { show_tree: !old.show_tree, status: new.status, ..old }) && new.status@
                == (if !old.show_tree { "Explorer shown"@ } else { "Explorer hidden · Ctrl+B to show"@ }) && r.len()
                == 0,
            Route::CycleDiff => exists|mid: Self|
                #![trigger Self::diff_cycled(old, mid, true, r)]
                Self::diff_cycled(old, mid, true, r) && new == (App { focus: Focus::Viewer, ..mid }),
            Route::NextTab => {
                let n = old.viewer.tabs@.len() as int;
                new == (App {
                    viewer: FileViewer {
                        active: if n > 0 { next_index(old.viewer.active as int, n) as usize } else { old.viewer.active },
                        ..old.viewer
                    },
                    ..old
                }) && r.len() == 0
            },
            Route::PrevTab => {
                let n = old.viewer.tabs@.len() as int;
                new == (App {
                    viewer: FileViewer {
                        active: if n == 0 { old.viewer.active } else { prev_index(old.viewer.active as int, n) as usize },
                        ..old.viewer
                    },
                    ..old
                }) && r.len() == 0
            },
            Route::SelectTerminal { index } => new == (App { active_term: index, focus: Focus::Terminal, ..old })
                && r.len() == 0,
            Route::Nothing => new == old && r.len() == 0,
            _ => false,
        }
    }

    /// Help, quick-open, the git pane, blame, themes, leaving the terminal,
    /// quitting, adding and closing terminals.
    pub open spec fn first_group(route: Route) -> bool {
        ||| route == Route::OpenHelp
        ||| route == Route::OpenSearch
        ||| route == Route::ToggleGit
        ||| route == Route::Blame
        ||| route == Route::OpenThemes
        ||| route == Route::CycleTheme
        ||| route == Route::LeaveTerminal
        ||| route == Route::Quit
        ||| route == Route::AddTerminal
        ||| route == Route::CloseTerminal
    }

    /// Whether the route goes to the pane that has focus.
    pub open spec fn to_pane(route: Route) -> bool {
        route == Route::Terminal || route == Route::Git || route == Route::Tree || route == Route::Viewer
    }

    fn route_toggle_git(&mut self) -> (r: Vec<Action>)
        requires
            old(self).wf(),
        ensures
            final(self).wf(),
            Self::route_post(*old(self), *final(self), Route::ToggleGit, views(r@)),
    {
        if self.show_git {
            self.close_git_pane();
            Vec::new()
        } else {
            self.open_git_pane()
        }
    }

    fn route_cycle_theme(&mut self) -> (r: Vec<Action>)
        requires
            old(self).wf(),
        ensures
            final(self).wf(),
            Self::route_post(*old(self), *final(self), Route::CycleTheme, views(r@)),
    {
        let id = self.theme.cycle();
        self.status = concat_str("Theme · ", id.name());
        let r = vec![Action::SaveTheme { id }];
        assert(views(r@) =~= seq![r@[0]@]);
        r
    }

    fn route_leave_terminal(&mut self) -> (r: Vec<Action>)
        requires
            old(self).wf(),
        ensures
            final(self).wf(),
            Self::route_post(*old(self), *final(self), Route::LeaveTerminal, views(r@)),
    {
        self.focus = Focus::Viewer;
        self.status = String::from_str("Left terminal · press Ctrl+T to return");
        Vec::new()
    }

    fn route_open_themes(&mut self) -> (r: Vec<Action>)
        requires
            old(self).wf(),
        ensures
            final(self).wf(),
            Self::route_post(*old(self), *final(self), Route::OpenThemes, views(r@)),
    {
        self.open_themes();
        Vec::new()
    }

    fn do_route(&mut self, route: Route) -> (r: Vec<Action>)
        requires
            old(self).wf(),
            Self::first_group(route),
            route == Route::CloseTerminal ==> old(self).focus == Focus::Terminal,
        ensures
            final(self).wf(),
            Self::route_post(*old(self), *final(self), route, views(r@)),
    {
        match route {
            Route::OpenHelp => {
                self.show_help = true;
                Vec::new()
            },
            Route::OpenSearch => self.open_search(),
            Route::ToggleGit => self.route_toggle_git(),
            Route::Blame => self.blame_active_or_selected(),
            Route::OpenThemes => self.route_open_themes(),
            Route::CycleTheme => self.route_cycle_theme(),
            Route::LeaveTerminal => self.route_leave_terminal(),
            Route::Quit => {
                self.should_quit = true;
                Vec::new()
            },
            Route::AddTerminal => self.add_terminal(),
            Route::CloseTerminal => {
                let i = self.active_term;
                self.close_terminal_at(i)
            },
            _ => Vec::new(),
        }
    }

    fn route_close_file(&mut self) -> (r: Vec<Action>)
        requires
            old(self).wf(),
        ensures
            final(self).wf(),
            Self::route_post(*old(self), *final(self), Route::CloseFile, views(r@)),
    {
        let c = self.viewer.close_active();
        if c {
            self.status = String::from_str("Closed file · click explorer to open another");
        }
        assert(FileViewer::<L>::closed_active(old(self).viewer, self.viewer, c));
        Vec::new()
    }

    fn route_cycle_focus(&mut self) -> (r: Vec<Action>)
        requires
            old(self).wf(),
        ensures
            final(self).wf(),
            Self::route_post(*old(self), *final(self), Route::CycleFocus, views(r@)),
    {
        self.focus = match self.focus {
            Focus::Tree => Focus::Viewer,
            Focus::Viewer => Focus::Terminal,
            Focus::Terminal => Focus::Tree,
        };
        self.status = match self.focus {
            Focus::Tree => if self.show_git {
                String::from_str("Git · s stage · Tab branches · Esc files")
            } else {
                String::from_str("Explorer · click a file to open")
            },
            Focus::Viewer => String::from_str("Editor · scroll to read · Ctrl+D diff"),
            Focus::Terminal => String::from_str("Terminal · type here (Esc to leave)"),
        };
        Vec::new()
    }

    fn route_toggle_tree(&mut self) -> (r: Vec<Action>)
        requires
            old(self).wf(),
        ensures
            final(self).wf(),
            Self::route_post(*old(self), *final(self), Route::ToggleTree, views(r@)),
    {
        self.show_tree = !self.show_tree;
        self.status = if self.show_tree {
            String::from_str("Explorer shown")
        } else {
            String::from_str("Explorer hidden · Ctrl+B to show")
        };
        Vec::new()
    }

    fn route_cycle_diff(&mut self) -> (r: Vec<Action>)
        requires
            old(self).wf(),
        ensures
            final(self).wf(),
            Self::route_post(*old(self), *final(self), Route::CycleDiff, views(r@)),
    {
        let r = self.cycle_diff(true);
        let ghost mid = *self;
        self.focus = Focus::Viewer;
        assert(Self::diff_cycled(*old(self), mid, true, views(r@)));
        r
    }

    fn route_next_tab(&mut self) -> (r: Vec<Action>)
        requires
            old(self).wf(),
        ensures
            final(self).wf(),
            Self::route_post(*old(self), *final(self), Route::NextTab, views(r@)),
    {
        let n = self.viewer.tabs.len();
        if n > 0 {
            self.viewer.active = (self.viewer.active + 1) % n;
        }
        Vec::new()
    }

    fn route_prev_tab(&mut self) -> (r: Vec<Action>)
        requires
            old(self).wf(),
        ensures
            final(self).wf(),
            Self::route_post(*old(self), *final(self), Route::PrevTab, views(r@)),
    {
        let n = self.viewer.tabs.len();
        if n > 0 {
            self.viewer.active = if self.viewer.active == 0 {
                n - 1
            } else {
                self.viewer.active - 1
            };
        }
        Vec::new()
    }

    fn route_select_terminal(&mut self, index: usize) -> (r: Vec<Action>)
        requires
            old(self).wf(),
            index < old(self).terms@.len(),
        ensures
            final(self).wf(),
            Self::route_post(*old(self), *final(self), Route::SelectTerminal { index }, views(r@)),
    {
        self.active_term = index;
        self.focus = Focus::Terminal;
        Vec::new()
    }

    fn do_route_more(&mut self, route: Route) -> (r: Vec<Action>)
        requires
            old(self).wf(),
            !Self::first_group(route),
            !Self::to_pane(route),
            route matches Route::SelectTerminal { index } ==> index < old(self).terms@.len(),
        ensures
            final(self).wf(),
            Self::route_post(*old(self), *final(self), route, views(r@)),
    {
        match route {
            Route::CloseFile => self.route_close_file(),
            Route::CycleFocus => self.route_cycle_focus(),
            Route::PrevTerminal => {
                self.prev_terminal();
                Vec::new()
            },
            Route::NextTerminal => {
                self.next_terminal();
                Vec::new()
            },
            Route::ToggleTree => self.route_toggle_tree(),
            Route::CycleDiff => self.route_cycle_diff(),
            Route::NextTab => self.route_next_tab(),
            Route::PrevTab => self.route_prev_tab(),
            Route::SelectTerminal { index } => self.route_select_terminal(index),
            _ => Vec::new(),
        }
    }

    /// A key with no overlay shown, as `on_global_key` handles it.
    pub open spec fn global_post(old: Self, new: Self, key: Key, r: Seq<ActionV>) -> bool {
        let route = route_of(old.focus, old.show_git, old.terms@.len() as int, key);
        match route {
            Route::Terminal => new == old && r == term_writes(old, key),
            Route::Git => Self::git_key_post(old, new, key, r),
            Route::Tree => Self::tree_key_post(old, new, key, r),
            Route::Viewer => Self::viewer_key_post(old, new, key, r),
            _ => Self::route_post(old, new, route, r),
        }
    }

    /// A key with no overlay shown: the keys that work anywhere, else the
    /// pane that has focus.
    pub fn on_global_key(&mut self, key: Key) -> (r: Vec<Action>)
        requires
            old(self).wf(),
        ensures
            final(self).wf(),
            Self::global_post(*old(self), *final(self), key, views(r@)),
    {
        let route = self.route(key);
        match route {
            Route::Terminal => self.on_term_key(key),
            Route::Git => self.on_git_key(key),
            Route::Tree => self.on_tree_key(key),
            Route::Viewer => self.on_viewer_key(key),
            Route::OpenHelp | Route::OpenSearch | Route::ToggleGit | Route::Blame | Route::OpenThemes
            | Route::CycleTheme | Route::LeaveTerminal | Route::Quit | Route::AddTerminal | Route::CloseTerminal => {
                self.do_route(route)
            },
            _ => self.do_route_more(route),
        }
    }

    /// A key, as `on_key` handles it: help, quick-open and the theme picker
    /// take keys first, in that order.
    pub open spec fn key_post(old: Self, new: Self, key: Key, r: Seq<ActionV>) -> bool {
        if old.show_help {
            Self::help_key_post(old, new, key, r)
        } else if old.show_search {
            Self::search_key_post(old, new, key, r)
        } else if old.show_themes {
            Self::themes_key_post(old, new, key, r)
        } else {
            Self::global_post(old, new, key, r)
        }
    }

    /// A key press.
    pub fn on_key(&mut self, key: Key) -> (r: Vec<Action>)
        requires
            old(self).wf(),
        ensures
            final(self).wf(),
            Self::key_post(*old(self), *final(self), key, views(r@)),
    {
        if self.show_help {
            self.on_help_key(key)
        } else if self.show_search {
            self.on_search_key(key)
        } else if self.show_themes {
            self.on_themes_key(key)
        } else {
            self.on_global_key(key)
        }
    }
}

impl<L> App<L> {
    /// `?` outside the terminal opens help, and Esc closes it again: the
    /// workbench is as it was, and nothing was asked of the outside.
    pub proof fn law_help_round_trip(old: Self, mid: Self, new: Self, mods: Mods, r1: Seq<ActionV>, r2: Seq<ActionV>)
        requires
            !old.show_help && !old.show_search && !old.show_themes,
            old.focus != Focus::Terminal,
            Self::key_post(old, mid, Key { code: KeyCode::Char('?'), mods }, r1),
            Self::key_post(mid, new, Key { code: KeyCode::Esc, mods }, r2),
        ensures
            mid.show_help,
            new == old,
            r1.len() == 0 && r2.len() == 0,
    {
    }
}
} // verus!
