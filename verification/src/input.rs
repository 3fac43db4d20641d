//! Keys: what each key does in each pane and overlay of the workbench.
use vstd::prelude::*;

use crate::git::DiffKind;
use crate::search::{path_views, paths_fit, search_result, SearchHit};
use crate::text::{chars_of, concat_str, push_char};
use crate::theme::{palette_at, palette_index, PaletteId, Theme};
use crate::tree::FileTree;
use crate::ui::monus;
use crate::viewer::{FileViewer, ViewMode};
use crate::workbench::{
    scroll_to_show, scroll_in_range, theme_status, tree_in_range, views, Action, ActionV, App, Focus, GitPaneTab, Key, KeyCode, Mods,
};

verus! {

/// Whether `key` is the key `code` or the character `c`.
pub open spec fn is_key(key: Key, code: KeyCode, c: char) -> bool {
    key.code == code || key.code == KeyCode::Char(c)
}

impl<L> App<L> {
    /// A key in the explorer, as `on_tree_key` handles it.
    pub open spec fn tree_key_post(old: Self, new: Self, key: Key, r: Seq<ActionV>) -> bool {
        let h = old.areas.tree_inner.height as usize;
        if is_key(key, KeyCode::Up, 'k') {
            Self::tree_moved(old, new, -1isize, h) && r.len() == 0
        } else if is_key(key, KeyCode::Down, 'j') {
            Self::tree_moved(old, new, 1isize, h) && r.len() == 0
        } else if key.code == KeyCode::PageUp {
            Self::tree_scrolled(old, new, -(if h > 1 { h as int } else { 1 }) as isize, h) && r.len() == 0
        } else if key.code == KeyCode::PageDown {
            Self::tree_scrolled(old, new, (if h > 1 { h as int } else { 1 }) as isize, h) && r.len() == 0
        } else if key.code == KeyCode::Home {
            new == (App { tree: FileTree { selected: 0, scroll: 0, ..old.tree }, ..old }) && r.len() == 0
        } else if key.code == KeyCode::End {
            Self::tree_shown(
                App { tree: FileTree { selected: (old.tree.flat@.len() - 1) as usize, ..old.tree }, ..old },
                new,
                h,
            ) && r.len() == 0
        } else if key.code == KeyCode::Enter || key.code == KeyCode::Right || key.code == KeyCode::Char('l') {
            Self::toggle_post(old, new, r)
        } else if is_key(key, KeyCode::Left, 'h') {
            let row = old.tree.rows()[old.tree.selected as int];
            &&& r.len() == 0
            &&& row.3 && row.4 ==> exists|t: FileTree, p: Option<String>|
                #![trigger FileTree::selection_toggled(old.tree, t, p)]
                FileTree::selection_toggled(old.tree, t, p) && Self::tree_shown(App { tree: t, ..old }, new, h)
            &&& !(row.3 && row.4) ==> Self::tree_shown(old, new, h)
        } else {
            new == old && r.len() == 0
        }
    }

    /// A key while the explorer has focus.
    pub fn on_tree_key(&mut self, key: Key) -> (r: Vec<Action>)
        requires
            old(self).wf(),
        ensures
            final(self).wf(),
            Self::tree_key_post(*old(self), *final(self), key, views(r@)),
    {
        let height = self.areas.tree_inner.height as usize;
        let step: isize = if height > 1 { height as isize } else { 1 };
        match key.code {
            KeyCode::Up | KeyCode::Char('k') => {
                self.tree_move(-1, height);
                Vec::new()
            },
            KeyCode::Down | KeyCode::Char('j') => {
                self.tree_move(1, height);
                Vec::new()
            },
            KeyCode::PageUp => {
                self.tree_scroll(-step, height);
                Vec::new()
            },
            KeyCode::PageDown => {
                self.tree_scroll(step, height);
                Vec::new()
            },
            KeyCode::Home => self.tree_key_home(key),
            KeyCode::End => self.tree_key_end(key),
            KeyCode::Enter | KeyCode::Right | KeyCode::Char('l') => self.tree_toggle(),
            KeyCode::Left | KeyCode::Char('h') => self.tree_key_left(key),
            _ => Vec::new(),
        }
    }

    fn tree_key_home(&mut self, key: Key) -> (r: Vec<Action>)
        requires
            old(self).wf(),
            key.code == KeyCode::Home,
        ensures
            final(self).wf(),
            Self::tree_key_post(*old(self), *final(self), key, views(r@)),
    {
        self.tree.selected = 0;
        self.tree.scroll = 0;
        Vec::new()
    }

    fn tree_key_end(&mut self, key: Key) -> (r: Vec<Action>)
        requires
            old(self).wf(),
            key.code == KeyCode::End,
        ensures
            final(self).wf(),
            Self::tree_key_post(*old(self), *final(self), key, views(r@)),
    {
        let height = self.areas.tree_inner.height as usize;
        self.tree.selected = self.tree.flat.len() - 1;
        self.tree_show_selected(height);
        Vec::new()
    }

    fn tree_key_left(&mut self, key: Key) -> (r: Vec<Action>)
        requires
            old(self).wf(),
            key.code == KeyCode::Left || key.code == KeyCode::Char('h'),
        ensures
            final(self).wf(),
            Self::tree_key_post(*old(self), *final(self), key, views(r@)),
    {
        let height = self.areas.tree_inner.height as usize;
        let sel = self.tree.selected;
        if self.tree.flat[sel].is_dir && self.tree.flat[sel].expanded {
            let p = self.tree.toggle_selected();
            let ghost t = self.tree;
            proof {
                crate::tree::lemma_visible_nonempty(self.tree.root_view());
            }
            self.tree_show_selected(height);
            assert(FileTree::selection_toggled(old(self).tree, t, p));
        } else {
            self.tree_show_selected(height);
        }
        Vec::new()
    }
}

/// The status line after `d` in the viewer leaves it in mode `m`.
pub open spec fn diff_key_status(m: ViewMode) -> Seq<char> {
    match m {
        ViewMode::Diff(k) => k.label_spec() + " · Ctrl+D cycles modes"@,
        ViewMode::Blame => "Blame"@,
        ViewMode::File => "File view"@,
    }
}

/// The status line after Ctrl+D leaves the viewer in mode `m`.
pub open spec fn ctrl_d_status(m: ViewMode) -> Seq<char> {
    match m {
        ViewMode::Diff(k) => k.label_spec() + " · Ctrl+D cycles HEAD → unstaged → staged"@,
        ViewMode::Blame => "Blame"@,
        ViewMode::File => "File view"@,
    }
}

/// The status line after `l` in the viewer leaves it in mode `m`.
pub open spec fn blame_key_status(m: ViewMode) -> Seq<char> {
    match m {
        ViewMode::Blame => "Blame"@,
        _ => "File view"@,
    }
}

/// A reload of the active tab, when the viewer changed one.
pub open spec fn reload(changed: bool, active: usize) -> Seq<ActionV> {
    if changed {
        seq![ActionV::LoadTab { index: active }]
    } else {
        Seq::empty()
    }
}

impl<L> App<L> {
    /// Ctrl+D (`hint_all`) or `d` in the viewer: the next diff mode of the
    /// open file, as `cycle_diff` does it.
    pub open spec fn diff_cycled(old: Self, new: Self, hint_all: bool, r: Seq<ActionV>) -> bool {
        exists|changed: bool|
            #![trigger FileViewer::<L>::diff_toggled(old.viewer, new.viewer, changed)]
            {
                &&& FileViewer::<L>::diff_toggled(old.viewer, new.viewer, changed)
                &&& new == (App { viewer: new.viewer, status: new.status, ..old })
                &&& new.status@ == if hint_all {
                    ctrl_d_status(new.viewer.mode_spec())
                } else {
                    diff_key_status(new.viewer.mode_spec())
                }
                &&& r == reload(changed, new.viewer.active)
            }
    }

    /// Ctrl+D, or `d` in the viewer: the next diff mode of the open file.
    pub(crate) fn cycle_diff(&mut self, hint_all: bool) -> (r: Vec<Action>)
        requires
            old(self).wf(),
        ensures
            final(self).wf(),
            Self::diff_cycled(*old(self), *final(self), hint_all, views(r@)),
    {
        let changed = self.viewer.toggle_diff();
        let mut r: Vec<Action> = Vec::new();
        if changed {
            r.push(Action::LoadTab { index: self.viewer.active });
        }
        self.status = match self.viewer.mode() {
            ViewMode::Diff(kind) => {
                if hint_all {
                    concat_str(kind.label(), " · Ctrl+D cycles HEAD → unstaged → staged")
                } else {
                    concat_str(kind.label(), " · Ctrl+D cycles modes")
                }
            },
            ViewMode::Blame => String::from_str("Blame"),
            ViewMode::File => String::from_str("File view"),
        };
        proof {
            assert(views(r@) =~= reload(changed, self.viewer.active));
            assert(FileViewer::<L>::diff_toggled(old(self).viewer, self.viewer, changed));
        }
        r
    }

    /// A key in the viewer, as `on_viewer_key` handles it.
    pub open spec fn viewer_key_post(old: Self, new: Self, key: Key, r: Seq<ActionV>) -> bool {
        let h = old.areas.viewer_body.height;
        if is_key(key, KeyCode::Up, 'k') {
            FileViewer::<L>::scrolled_by(old.viewer, new.viewer, -1i32, h) && new == (App { viewer: new.viewer, ..old })
                && r.len() == 0
        } else if is_key(key, KeyCode::Down, 'j') {
            FileViewer::<L>::scrolled_by(old.viewer, new.viewer, 1i32, h) && new == (App { viewer: new.viewer, ..old })
                && r.len() == 0
        } else if key.code == KeyCode::PageUp {
            FileViewer::<L>::scrolled_by(old.viewer, new.viewer, -(h as int) as i32, h) && new == (App {
                viewer: new.viewer,
                ..old
            }) && r.len() == 0
        } else if key.code == KeyCode::PageDown {
            FileViewer::<L>::scrolled_by(old.viewer, new.viewer, h as i32, h) && new == (App {
                viewer: new.viewer,
                ..old
            }) && r.len() == 0
        } else if key.code == KeyCode::Home {
            FileViewer::<L>::scroll_set(old.viewer, new.viewer, 0) && new == (App { viewer: new.viewer, ..old })
                && r.len() == 0
        } else if key.code == KeyCode::End {
            let len = if old.viewer.has_active() { old.viewer.active_tab().lines@.len() as int } else { 0 };
            FileViewer::<L>::scroll_set(old.viewer, new.viewer, monus(len, h as int) as u16) && new == (App {
                viewer: new.viewer,
                ..old
            }) && r.len() == 0
        } else if key.code == KeyCode::Char('d') {
            exists|changed: bool|
                #![trigger FileViewer::<L>::diff_toggled(old.viewer, new.viewer, changed)]
                {
                    &&& FileViewer::<L>::diff_toggled(old.viewer, new.viewer, changed)
                    &&& new == (App { viewer: new.viewer, status: new.status, ..old })
                    &&& new.status@ == diff_key_status(new.viewer.mode_spec())
                    &&& r == reload(changed, new.viewer.active)
                }
        } else if key.code == KeyCode::Char('l') {
            exists|changed: bool|
                #![trigger FileViewer::<L>::blame_toggled_post(old.viewer, new.viewer, changed)]
                {
                    &&& FileViewer::<L>::blame_toggled_post(old.viewer, new.viewer, changed)
                    &&& new == (App { viewer: new.viewer, status: new.status, ..old })
                    &&& new.status@ == blame_key_status(new.viewer.mode_spec())
                    &&& r == reload(changed, new.viewer.active)
                }
        } else {
            new == old && r.len() == 0
        }
    }

    /// A key while the viewer has focus.
    pub fn on_viewer_key(&mut self, key: Key) -> (r: Vec<Action>)
        requires
            old(self).wf(),
        ensures
            final(self).wf(),
            Self::viewer_key_post(*old(self), *final(self), key, views(r@)),
    {
        let h = self.areas.viewer_body.height;
        match key.code {
            KeyCode::Up | KeyCode::Char('k') => {
                self.viewer.scroll_by(-1, h);
                Vec::new()
            },
            KeyCode::Down | KeyCode::Char('j') => {
                self.viewer.scroll_by(1, h);
                Vec::new()
            },
            KeyCode::PageUp => {
                self.viewer.scroll_by(-(h as i32), h);
                Vec::new()
            },
            KeyCode::PageDown => {
                self.viewer.scroll_by(h as i32, h);
                Vec::new()
            },
            KeyCode::Home => {
                self.viewer.set_scroll(0);
                Vec::new()
            },
            KeyCode::End => self.viewer_key_end(key),
            KeyCode::Char('d') => self.cycle_diff(false),
            KeyCode::Char('l') => self.viewer_key_blame(key),
            _ => Vec::new(),
        }
    }

    fn viewer_key_end(&mut self, key: Key) -> (r: Vec<Action>)
        requires
            old(self).wf(),
            key.code == KeyCode::End,
        ensures
            final(self).wf(),
            Self::viewer_key_post(*old(self), *final(self), key, views(r@)),
    {
        let h = self.areas.viewer_body.height;
        let len = self.viewer.lines().len();
        let max = len.saturating_sub(h as usize);
        self.viewer.set_scroll(max as u16);
        Vec::new()
    }

    fn viewer_key_blame(&mut self, key: Key) -> (r: Vec<Action>)
        requires
            old(self).wf(),
            key.code == KeyCode::Char('l'),
        ensures
            final(self).wf(),
            Self::viewer_key_post(*old(self), *final(self), key, views(r@)),
    {
        let changed = self.viewer.toggle_blame();
        let mut r: Vec<Action> = Vec::new();
        if changed {
            r.push(Action::LoadTab { index: self.viewer.active });
        }
        self.status = match self.viewer.mode() {
            ViewMode::Blame => String::from_str("Blame"),
            _ => String::from_str("File view"),
        };
        proof {
            assert(views(r@) =~= reload(changed, self.viewer.active));
            assert(FileViewer::<L>::blame_toggled_post(old(self).viewer, self.viewer, changed));
        }
        r
    }
}

/// Whether `c` is a control character (general category Cc).
pub open spec fn is_control(c: char) -> bool {
    (c as u32) < 0x20 || (0x7f <= (c as u32) && (c as u32) < 0xa0)
}

/// Only Ctrl is held.
pub open spec fn only_ctrl(m: Mods) -> bool {
    m.ctrl && !m.shift && !m.alt && !m.other
}

/// What a key sends to the shell: Ctrl+C, D, L and Z their control codes,
/// Enter a carriage return, the arrows, Home and End their escape sequences,
/// other characters their UTF-8 bytes; other keys send nothing.
pub open spec fn term_bytes(key: Key) -> Option<Seq<u8>> {
    match key.code {
        KeyCode::Char(c) => if only_ctrl(key.mods) && c == 'c' {
            Some(seq![0x03u8])
        } else if only_ctrl(key.mods) && c == 'd' {
            Some(seq![0x04u8])
        } else if only_ctrl(key.mods) && c == 'l' {
            Some(seq![0x0cu8])
        } else if only_ctrl(key.mods) && c == 'z' {
            Some(seq![0x1au8])
        } else {
            Some(crate::term::utf8_encode(c))
        },
        KeyCode::Enter => Some(seq![0x0du8]),
        KeyCode::Backspace => Some(seq![0x7fu8]),
        KeyCode::Tab => Some(seq![0x09u8]),
        KeyCode::Esc => Some(seq![0x1bu8]),
        KeyCode::Up => Some(seq![0x1bu8, 0x5bu8, 0x41u8]),
        KeyCode::Down => Some(seq![0x1bu8, 0x5bu8, 0x42u8]),
        KeyCode::Right => Some(seq![0x1bu8, 0x5bu8, 0x43u8]),
        KeyCode::Left => Some(seq![0x1bu8, 0x5bu8, 0x44u8]),
        KeyCode::Home => Some(seq![0x1bu8, 0x5bu8, 0x48u8]),
        KeyCode::End => Some(seq![0x1bu8, 0x5bu8, 0x46u8]),
        _ => None,
    }
}

fn key_bytes(key: Key) -> (r: Option<Vec<u8>>)
    ensures
        match term_bytes(key) {
            None => r is None,
            Some(b) => r matches Some(v) && v@ == b,
        },
{
    let ctrl_only = key.mods.ctrl && !key.mods.shift && !key.mods.alt && !key.mods.other;
    match key.code {
        KeyCode::Char(c) => {
            if ctrl_only && c == 'c' {
                Some(vec![0x03u8])
            } else if ctrl_only && c == 'd' {
                Some(vec![0x04u8])
            } else if ctrl_only && c == 'l' {
                Some(vec![0x0cu8])
            } else if ctrl_only && c == 'z' {
                Some(vec![0x1au8])
            } else {
                Some(crate::term::char_bytes(c))
            }
        },
        KeyCode::Enter => Some(vec![0x0du8]),
        KeyCode::Backspace => Some(vec![0x7fu8]),
        KeyCode::Tab => Some(vec![0x09u8]),
        KeyCode::Esc => Some(vec![0x1bu8]),
        KeyCode::Up => Some(vec![0x1bu8, 0x5bu8, 0x41u8]),
        KeyCode::Down => Some(vec![0x1bu8, 0x5bu8, 0x42u8]),
        KeyCode::Right => Some(vec![0x1bu8, 0x5bu8, 0x43u8]),
        KeyCode::Left => Some(vec![0x1bu8, 0x5bu8, 0x44u8]),
        KeyCode::Home => Some(vec![0x1bu8, 0x5bu8, 0x48u8]),
        KeyCode::End => Some(vec![0x1bu8, 0x5bu8, 0x46u8]),
        _ => None,
    }
}

impl<L> App<L> {
    /// A key while a terminal has focus: what it sends goes to the active
    /// terminal, if its shell still runs.
    pub fn on_term_key(&mut self, key: Key) -> (r: Vec<Action>)
        requires
            old(self).wf(),
        ensures
            *final(self) == *old(self),
            views(r@) == match term_bytes(key) {
                Some(b) => if old(self).terms@[old(self).active_term as int].alive {
                    seq![ActionV::Write { index: old(self).active_term, bytes: b }]
                } else {
                    Seq::empty()
                },
                None => Seq::empty(),
            },
    {
        match key_bytes(key) {
            Some(bytes) => {
                if self.terms[self.active_term].alive {
                    let r = vec![Action::Write { index: self.active_term, bytes }];
                    assert(views(r@) =~= seq![r@[0]@]);
                    r
                } else {
                    Vec::new()
                }
            },
            None => Vec::new(),
        }
    }
}

impl<L> App<L> {
    /// Chooses the palette `id` and asks for it to be remembered.
    pub(crate) fn choose_theme(&mut self, id: PaletteId) -> (r: Vec<Action>)
        ensures
            *final(self) == (App {
                theme: Theme { current: id },
                status: final(self).status,
                show_themes: false,
                ..*old(self)
            }),
            final(self).status@ == theme_status(id),
            views(r@) == seq![ActionV::SaveTheme { id }],
    {
        self.theme.set(id);
        self.status = concat_str("Theme · ", id.name());
        self.show_themes = false;
        let r = vec![Action::SaveTheme { id }];
        assert(views(r@) =~= seq![r@[0]@]);
        r
    }

    /// Opens the theme picker on the palette in use.
    pub(crate) fn open_themes(&mut self)
        ensures
            *final(self) == (App {
                show_themes: true,
                theme_cursor: palette_index(old(self).theme.current) as usize,
                ..*old(self)
            }),
    {
        self.show_themes = true;
        self.theme_cursor = self.theme.id().index();
    }

    /// A key while the theme picker is open, as `on_themes_key` handles it.
    pub open spec fn themes_key_post(old: Self, new: Self, key: Key, r: Seq<ActionV>) -> bool {
        if is_key(key, KeyCode::Esc, 'q') {
            new == (App { show_themes: false, ..old }) && r.len() == 0
        } else if is_key(key, KeyCode::Up, 'k') {
            new == (App {
                theme_cursor: if old.theme_cursor > 0 { (old.theme_cursor - 1) as usize } else { 7 },
                ..old
            }) && r.len() == 0
        } else if is_key(key, KeyCode::Down, 'j') {
            new == (App { theme_cursor: ((old.theme_cursor + 1) % 8) as usize, ..old }) && r.len() == 0
        } else if key.code == KeyCode::Enter {
            let id = palette_at(old.theme_cursor as int);
            &&& new == (App { theme: Theme { current: id }, status: new.status, show_themes: false, ..old })
            &&& new.status@ == theme_status(id)
            &&& r == seq![ActionV::SaveTheme { id }]
        } else if key.code matches KeyCode::Char(c) && '0' <= c <= '8' {
            let i = if key.code->Char_0 == '0' { 0 } else { (key.code->Char_0 as u32 - 49) as int };
            let id = palette_at(i);
            &&& new == (App {
                theme_cursor: i as usize,
                theme: Theme { current: id },
                status: new.status,
                show_themes: false,
                ..old
            })
            &&& new.status@ == theme_status(id)
            &&& r == seq![ActionV::SaveTheme { id }]
        } else {
            new == old && r.len() == 0
        }
    }

    /// A key while the theme picker is open: move, pick with Enter or a digit
    /// from 1 to 8 (0 picks the first), leave with Esc or `q`.
    pub fn on_themes_key(&mut self, key: Key) -> (r: Vec<Action>)
        requires
            old(self).wf(),
        ensures
            final(self).wf(),
            Self::themes_key_post(*old(self), *final(self), key, views(r@)),
    {
        match key.code {
            KeyCode::Esc | KeyCode::Char('q') => {
                self.show_themes = false;
                Vec::new()
            },
            KeyCode::Up | KeyCode::Char('k') => {
                if self.theme_cursor > 0 {
                    self.theme_cursor = self.theme_cursor - 1;
                } else {
                    self.theme_cursor = 7;
                }
                Vec::new()
            },
            KeyCode::Down | KeyCode::Char('j') => {
                self.theme_cursor = (self.theme_cursor + 1) % 8;
                Vec::new()
            },
            KeyCode::Enter => {
                let id = PaletteId::from_index(self.theme_cursor);
                self.choose_theme(id)
            },
            KeyCode::Char(c) => self.themes_key_digit(key, c),
            _ => Vec::new(),
        }
    }

    fn themes_key_digit(&mut self, key: Key, c: char) -> (r: Vec<Action>)
        requires
            old(self).wf(),
            key.code == KeyCode::Char(c),
            c != 'q' && c != 'k' && c != 'j',
        ensures
            final(self).wf(),
            Self::themes_key_post(*old(self), *final(self), key, views(r@)),
    {
        if '0' <= c && c <= '9' {
            let d = (c as u32 - 48) as usize;
            let idx = d.saturating_sub(1);
            if idx < 8 {
                self.theme_cursor = idx;
                let id = PaletteId::from_index(idx);
                return self.choose_theme(id);
            }
        }
        Vec::new()
    }

    /// A key while help is shown, as `on_help_key` handles it.
    pub open spec fn help_key_post(old: Self, new: Self, key: Key, r: Seq<ActionV>) -> bool {
        if key.code == KeyCode::Esc || key.code == KeyCode::Char('?') || key.code == KeyCode::Char('q')
            || key.code == KeyCode::Enter || key.code == KeyCode::F(1) {
            new == (App { show_help: false, ..old }) && r.len() == 0
        } else if key.code == KeyCode::Char('p') || key.code == KeyCode::Char('t') {
            new == (App {
                show_help: false,
                show_themes: true,
                theme_cursor: palette_index(old.theme.current) as usize,
                ..old
            }) && r.len() == 0
        } else if key.code == KeyCode::Char('o') || key.code == KeyCode::Char('f') {
            Self::search_opened(old, new, r)
        } else {
            new == old && r.len() == 0
        }
    }

    /// Quick-open was asked for, as `open_search` does it.
    pub open spec fn search_opened(old: Self, new: Self, r: Seq<ActionV>) -> bool {
        &&& r.len() == 0 || (r == seq![ActionV::IndexFiles] && new == old)
        &&& (!old.file_index.is_built() || old.file_index.paths@.len() == 0) ==> r == seq![ActionV::IndexFiles]
        &&& r.len() == 0 ==> Self::search_shown(old, new)
    }

    /// A key while help is shown: it closes help, or goes on to the theme
    /// picker (`p`, `t`) or quick-open (`o`, `f`).
    pub fn on_help_key(&mut self, key: Key) -> (r: Vec<Action>)
        requires
            old(self).wf(),
        ensures
            final(self).wf(),
            Self::help_key_post(*old(self), *final(self), key, views(r@)),
    {
        match key.code {
            KeyCode::Esc | KeyCode::Char('?') | KeyCode::Char('q') | KeyCode::Enter | KeyCode::F(1) => {
                self.show_help = false;
                Vec::new()
            },
            KeyCode::Char('p') | KeyCode::Char('t') => {
                self.show_help = false;
                self.open_themes();
                Vec::new()
            },
            KeyCode::Char('o') | KeyCode::Char('f') => self.open_search(),
            _ => Vec::new(),
        }
    }
}

/// `s` without its last character (`String::pop`).
fn without_last(s: &String) -> (r: String)
    ensures
        r@ == if s@.len() > 0 { s@.drop_last() } else { s@ },
{
    let v = chars_of(s.as_str());
    if v.len() == 0 {
        String::new()
    } else {
        let r = crate::text::string_of_range(&v, 0, v.len() - 1);
        assert(v@.subrange(0, v@.len() - 1) =~= v@.drop_last());
        r
    }
}

impl<L> App<L> {
    /// The query changed to `q`: the cursor goes to the top and the results
    /// are searched again, as `refresh_search_hits` does it.
    pub open spec fn requeried(old: Self, new: Self, q: Seq<char>) -> bool {
        &&& new == (App {
            search_query: new.search_query,
            search_hits: new.search_hits,
            search_cursor: 0,
            ..old
        })
        &&& new.search_query@ == q
        &&& paths_fit(old.file_index.paths@) ==> search_result(
            path_views(old.file_index.paths@),
            old.root@,
            q,
            40,
            new.search_hits@.map_values(|h: SearchHit| h@),
        )
        &&& !paths_fit(old.file_index.paths@) ==> new.search_hits@.len() == 0
    }

    /// A key while quick-open is shown, as `on_search_key` handles it.
    pub open spec fn search_key_post(old: Self, new: Self, key: Key, r: Seq<ActionV>) -> bool {
        let n = old.search_hits@.len();
        if key.code == KeyCode::Esc {
            new == (App { show_search: false, status: new.status, ..old }) && new.status@ == "Search closed"@
                && r.len() == 0
        } else if key.code == KeyCode::Enter {
            &&& old.search_cursor < n ==> Self::file_opened(
                App { show_search: false, ..old },
                new,
                old.search_hits@[old.search_cursor as int].abs@,
                r,
            )
            &&& old.search_cursor >= n ==> r.len() == 0 && new == (App { status: new.status, ..old })
                && new.status@ == "No matching files"@
        } else if key.code == KeyCode::Up {
            new == (App {
                search_cursor: if old.search_cursor > 0 {
                    (old.search_cursor - 1) as usize
                } else if n > 0 {
                    (n - 1) as usize
                } else {
                    old.search_cursor
                },
                ..old
            }) && r.len() == 0
        } else if key.code == KeyCode::Down {
            new == (App {
                search_cursor: if n > 0 { ((old.search_cursor + 1) % (n as int)) as usize } else { old.search_cursor },
                ..old
            }) && r.len() == 0
        } else if key.code == KeyCode::Backspace {
            Self::requeried(
                old,
                new,
                if old.search_query@.len() > 0 { old.search_query@.drop_last() } else { old.search_query@ },
            ) && r.len() == 0
        } else if key.code matches KeyCode::Char(c) && !key.mods.ctrl && !key.mods.alt && !is_control(c) {
            Self::requeried(old, new, old.search_query@.push(key.code->Char_0)) && r.len() == 0
        } else {
            new == old && r.len() == 0
        }
    }

    /// A key while quick-open is shown: type to filter, Backspace, Up and Down
    /// to move, Enter to open, Esc to close.
    pub fn on_search_key(&mut self, key: Key) -> (r: Vec<Action>)
        requires
            old(self).wf(),
        ensures
            final(self).wf(),
            Self::search_key_post(*old(self), *final(self), key, views(r@)),
    {
        match key.code {
            KeyCode::Esc => self.search_key_esc(key),
            KeyCode::Enter => self.confirm_search(),
            KeyCode::Up => self.search_key_up(key),
            KeyCode::Down => self.search_key_down(key),
            KeyCode::Backspace => self.search_key_backspace(key),
            KeyCode::Char(c) => self.search_key_char(key, c),
            _ => Vec::new(),
        }
    }

    fn search_key_esc(&mut self, key: Key) -> (r: Vec<Action>)
        requires
            old(self).wf(),
            key.code == KeyCode::Esc,
        ensures
            final(self).wf(),
            Self::search_key_post(*old(self), *final(self), key, views(r@)),
    {
        self.show_search = false;
        self.status = String::from_str("Search closed");
        Vec::new()
    }

    fn search_key_up(&mut self, key: Key) -> (r: Vec<Action>)
        requires
            old(self).wf(),
            key.code == KeyCode::Up,
        ensures
            final(self).wf(),
            Self::search_key_post(*old(self), *final(self), key, views(r@)),
    {
        if self.search_cursor > 0 {
            self.search_cursor = self.search_cursor - 1;
        } else if self.search_hits.len() > 0 {
            self.search_cursor = self.search_hits.len() - 1;
        }
        Vec::new()
    }

    fn search_key_down(&mut self, key: Key) -> (r: Vec<Action>)
        requires
            old(self).wf(),
            key.code == KeyCode::Down,
        ensures
            final(self).wf(),
            Self::search_key_post(*old(self), *final(self), key, views(r@)),
    {
        let n = self.search_hits.len();
        if n > 0 {
            self.search_cursor = (self.search_cursor + 1) % n;
        }
        Vec::new()
    }

    fn search_key_backspace(&mut self, key: Key) -> (r: Vec<Action>)
        requires
            old(self).wf(),
            key.code == KeyCode::Backspace,
        ensures
            final(self).wf(),
            Self::search_key_post(*old(self), *final(self), key, views(r@)),
    {
        self.search_query = without_last(&self.search_query);
        self.search_cursor = 0;
        self.refresh_search_hits();
        Vec::new()
    }

    fn search_key_char(&mut self, key: Key, c: char) -> (r: Vec<Action>)
        requires
            old(self).wf(),
            key.code == KeyCode::Char(c),
        ensures
            final(self).wf(),
            Self::search_key_post(*old(self), *final(self), key, views(r@)),
    {
        if !key.mods.ctrl && !key.mods.alt {
            let v = c as u32;
            if !(v < 0x20 || (0x7f <= v && v < 0xa0)) {
                push_char(&mut self.search_query, c);
                self.search_cursor = 0;
                self.refresh_search_hits();
            }
        }
        Vec::new()
    }
}

/// The row of the git pane after Up on a list of `len` rows.
pub open spec fn row_up(cursor: int, len: int) -> int {
    if cursor > 0 {
        cursor - 1
    } else if len > 0 {
        len - 1
    } else {
        cursor
    }
}

/// The row after Down: the next one, after the last the first.
pub open spec fn row_down(cursor: int, len: int) -> int {
    if len > 0 {
        (cursor + 1) % len
    } else {
        cursor
    }
}

/// A page: the pane's height, at least 1.
pub open spec fn page(h: int) -> int {
    if h > 1 {
        h
    } else {
        1
    }
}

/// The row after Page Down: a page further, at most the last.
pub open spec fn row_page_down(cursor: int, len: int, h: int) -> int {
    if len > 0 {
        if cursor + page(h) < len - 1 {
            cursor + page(h)
        } else {
            len - 1
        }
    } else {
        cursor
    }
}

impl<L> App<L> {
    /// The git cursor moved to `c` and the list scrolled to show it.
    pub open spec fn git_moved(old: Self, new: Self, c: int) -> bool {
        new == (App {
            git_cursor: c as usize,
            git_scroll: scroll_to_show(c, old.git_scroll as int, old.areas.tree_inner.height as int) as usize,
            ..old
        })
    }

    /// Sets the git cursor and scrolls to it.
    fn git_move_to(&mut self, c: usize)
        requires
            old(self).wf(),
            c == 0 || c < old(self).git_len(),
        ensures
            final(self).wf(),
            Self::git_moved(*old(self), *final(self), c as int),
    {
        let _n = self.git_list_len();
        self.git_cursor = c;
        self.ensure_git_visible(self.areas.tree_inner.height as usize);
    }

    /// Is `key` one that moves the git cursor?
    pub open spec fn is_git_nav(key: Key) -> bool {
        ||| is_key(key, KeyCode::Up, 'k')
        ||| is_key(key, KeyCode::Down, 'j')
        ||| key.code == KeyCode::PageUp
        ||| key.code == KeyCode::PageDown
        ||| key.code == KeyCode::Home
        ||| key.code == KeyCode::End
    }

    /// A key that moves the git cursor, as `git_nav` handles it.
    pub open spec fn git_nav_post(old: Self, new: Self, key: Key) -> bool {
        let len = old.git_len();
        let h = old.areas.tree_inner.height as int;
        if is_key(key, KeyCode::Up, 'k') {
            Self::git_moved(old, new, row_up(old.git_cursor as int, len))
        } else if is_key(key, KeyCode::Down, 'j') {
            Self::git_moved(old, new, row_down(old.git_cursor as int, len))
        } else if key.code == KeyCode::PageUp {
            Self::git_moved(old, new, monus(old.git_cursor as int, page(h)))
        } else if key.code == KeyCode::PageDown {
            Self::git_moved(old, new, row_page_down(old.git_cursor as int, len, h))
        } else if key.code == KeyCode::Home {
            new == (App { git_cursor: 0, git_scroll: 0, ..old })
        } else {
            (len > 0 ==> Self::git_moved(old, new, len - 1)) && (len == 0 ==> new == old)
        }
    }

    /// Up, Down, Page Up, Page Down, Home or End in the git pane.
    fn git_nav(&mut self, key: Key)
        requires
            old(self).wf(),
            Self::is_git_nav(key),
        ensures
            final(self).wf(),
            Self::git_nav_post(*old(self), *final(self), key),
    {
        let len = self.git_list_len();
        let h = self.areas.tree_inner.height as usize;
        let p = if h > 1 { h } else { 1 };
        match key.code {
            KeyCode::Up | KeyCode::Char('k') => {
                let c = if self.git_cursor > 0 {
                    self.git_cursor - 1
                } else if len > 0 {
                    len - 1
                } else {
                    self.git_cursor
                };
                self.git_move_to(c);
            },
            KeyCode::Down | KeyCode::Char('j') => {
                let c = if len > 0 { (self.git_cursor + 1) % len } else { self.git_cursor };
                self.git_move_to(c);
            },
            KeyCode::PageUp => {
                let c = self.git_cursor.saturating_sub(p);
                self.git_move_to(c);
            },
            KeyCode::PageDown => {
                let c = if len > 0 {
                    let further = self.git_cursor.saturating_add(p);
                    if further < len - 1 { further } else { len - 1 }
                } else {
                    self.git_cursor
                };
                self.git_move_to(c);
            },
            KeyCode::Home => {
                self.git_cursor = 0;
                self.git_scroll = 0;
            },
            _ => {
                if len > 0 {
                    self.git_move_to(len - 1);
                }
            },
        }
    }

    /// A key in the git pane other than one that moves the cursor, as
    /// `git_command` handles it.
    pub open spec fn git_command_post(old: Self, new: Self, key: Key, r: Seq<ActionV>) -> bool {
        let changes = old.git_tab == GitPaneTab::Changes;
        if key.code == KeyCode::Esc {
            new == (App { show_git: false, status: new.status, ..old }) && new.status@
                == "Explorer · click a file to open"@ && r.len() == 0
        } else if key.code == KeyCode::Tab {
            if changes {
                new == (App { git_tab: GitPaneTab::Branches, git_cursor: 0, git_scroll: 0, ..old }) && r == seq![
                    ActionV::LoadBranches { select_current: true },
                ]
            } else {
                new == (App { git_tab: GitPaneTab::Changes, git_cursor: 0, git_scroll: 0, ..old }) && r.len() == 0
            }
        } else if key.code == KeyCode::Char('c') {
            new == (App { git_tab: GitPaneTab::Changes, git_cursor: 0, git_scroll: 0, ..old }) && r.len() == 0
        } else if key.code == KeyCode::Char('b') {
            new == (App { git_tab: GitPaneTab::Branches, git_cursor: 0, git_scroll: 0, ..old }) && r == seq![
                ActionV::LoadBranches { select_current: true },
            ]
        } else if key.code == KeyCode::Char('s') && changes {
            Self::stage_post(old, new, r)
        } else if key.code == KeyCode::Char('u') && changes {
            Self::unstage_post(old, new, r)
        } else if key.code == KeyCode::Char(' ') && changes {
            Self::space_post(old, new, r)
        } else if key.code == KeyCode::Char('d') && changes {
            Self::diff_post(old, new, if key.mods.shift { DiffKind::Staged } else { DiffKind::Unstaged }, r)
        } else if key.code == KeyCode::Char('D') && changes {
            Self::diff_post(old, new, DiffKind::Staged, r)
        } else if key.code == KeyCode::Char('h') && changes {
            Self::diff_post(old, new, DiffKind::Head, r)
        } else if key.code == KeyCode::Char('l') {
            Self::blame_post(old, new, r)
        } else if key.code == KeyCode::Enter {
            if changes {
                &&& old.git_cursor < old.git_entries@.len() ==> Self::file_opened(
                    old,
                    new,
                    old.git_entries@[old.git_cursor as int].path@,
                    r,
                )
                &&& old.git_cursor >= old.git_entries@.len() ==> r.len() == 0 && new == old
            } else {
                Self::checkout_post(old, new, r)
            }
        } else if key.code == KeyCode::Char('r') {
            new == (App { status: new.status, ..old }) && new.status@ == "Git refreshed"@ && r == seq![ActionV::LoadGit]
        } else {
            new == old && r.len() == 0
        }
    }

    /// Space on the list of changes: stages an unstaged file, else unstages
    /// a staged one.
    pub open spec fn space_post(old: Self, new: Self, r: Seq<ActionV>) -> bool {
        if old.git_cursor < old.git_entries@.len() {
            let e = old.git_entries@[old.git_cursor as int];
            if e.is_unstaged_spec() {
                Self::stage_post(old, new, r)
            } else if e.is_staged_spec() {
                Self::unstage_post(old, new, r)
            } else {
                new == old && r.len() == 0
            }
        } else {
            new == old && r.len() == 0
        }
    }

    /// The git pane's keys besides the cursor keys.
    fn git_command(&mut self, key: Key) -> (r: Vec<Action>)
        requires
            old(self).wf(),
            !Self::is_git_nav(key),
        ensures
            final(self).wf(),
            Self::git_command_post(*old(self), *final(self), key, views(r@)),
    {
        let changes = match self.git_tab {
            GitPaneTab::Changes => true,
            GitPaneTab::Branches => false,
        };
        match key.code {
            KeyCode::Esc => {
                self.close_git_pane();
                Vec::new()
            },
            KeyCode::Tab => self.git_key_tab(key),
            KeyCode::Char('c') => self.git_key_changes(key),
            KeyCode::Char('b') => self.git_key_branches(key),
            KeyCode::Char('s') if changes => self.stage_selected(),
            KeyCode::Char('u') if changes => self.unstage_selected(),
            KeyCode::Char(' ') if changes => self.git_key_space(),
            KeyCode::Char('d') if changes => {
                if key.mods.shift {
                    self.diff_selected(DiffKind::Staged)
                } else {
                    self.diff_selected(DiffKind::Unstaged)
                }
            },
            KeyCode::Char('D') if changes => self.diff_selected(DiffKind::Staged),
            KeyCode::Char('h') if changes => self.diff_selected(DiffKind::Head),
            KeyCode::Char('l') => self.blame_active_or_selected(),
            KeyCode::Enter => {
                if changes {
                    self.open_selected_git_file()
                } else {
                    self.checkout_selected_branch()
                }
            },
            KeyCode::Char('r') => self.git_key_refresh(key),
            _ => Vec::new(),
        }
    }

    fn git_key_tab(&mut self, key: Key) -> (r: Vec<Action>)
        requires
            old(self).wf(),
            key.code == KeyCode::Tab,
        ensures
            final(self).wf(),
            Self::git_command_post(*old(self), *final(self), key, views(r@)),
    {
        self.git_cursor = 0;
        self.git_scroll = 0;
        match self.git_tab {
            GitPaneTab::Changes => {
                self.git_tab = GitPaneTab::Branches;
                let r = vec![Action::LoadBranches { select_current: true }];
                assert(views(r@) =~= seq![r@[0]@]);
                r
            },
            GitPaneTab::Branches => {
                self.git_tab = GitPaneTab::Changes;
                Vec::new()
            },
        }
    }

    fn git_key_changes(&mut self, key: Key) -> (r: Vec<Action>)
        requires
            old(self).wf(),
            key.code == KeyCode::Char('c'),
        ensures
            final(self).wf(),
            Self::git_command_post(*old(self), *final(self), key, views(r@)),
    {
        self.git_tab = GitPaneTab::Changes;
        self.git_cursor = 0;
        self.git_scroll = 0;
        Vec::new()
    }

    fn git_key_branches(&mut self, key: Key) -> (r: Vec<Action>)
        requires
            old(self).wf(),
            key.code == KeyCode::Char('b'),
        ensures
            final(self).wf(),
            Self::git_command_post(*old(self), *final(self), key, views(r@)),
    {
        self.git_tab = GitPaneTab::Branches;
        self.git_cursor = 0;
        self.git_scroll = 0;
        let r = vec![Action::LoadBranches { select_current: true }];
        assert(views(r@) =~= seq![r@[0]@]);
        r
    }

    fn git_key_space(&mut self) -> (r: Vec<Action>)
        requires
            old(self).wf(),
        ensures
            final(self).wf(),
            Self::space_post(*old(self), *final(self), views(r@)),
    {
        if self.git_cursor < self.git_entries.len() {
            if self.git_entries[self.git_cursor].is_unstaged() {
                return self.stage_selected();
            } else if self.git_entries[self.git_cursor].is_staged() {
                return self.unstage_selected();
            }
        }
        Vec::new()
    }

    fn git_key_refresh(&mut self, key: Key) -> (r: Vec<Action>)
        requires
            old(self).wf(),
            key.code == KeyCode::Char('r'),
        ensures
            final(self).wf(),
            Self::git_command_post(*old(self), *final(self), key, views(r@)),
    {
        self.status = String::from_str("Git refreshed");
        let r = vec![Action::LoadGit];
        assert(views(r@) =~= seq![r@[0]@]);
        r
    }

    /// A key in the git pane, as `on_git_key` handles it.
    pub open spec fn git_key_post(old: Self, new: Self, key: Key, r: Seq<ActionV>) -> bool {
        if Self::is_git_nav(key) {
            Self::git_nav_post(old, new, key) && r.len() == 0
        } else {
            Self::git_command_post(old, new, key, r)
        }
    }

    /// A key while the git pane has focus: move, switch between changes and
    /// branches, stage, unstage, diff, blame, open, check out, refresh, leave.
    pub fn on_git_key(&mut self, key: Key) -> (r: Vec<Action>)
        requires
            old(self).wf(),
        ensures
            final(self).wf(),
            Self::git_key_post(*old(self), *final(self), key, views(r@)),
    {
        let nav = match key.code {
            KeyCode::Up | KeyCode::Down | KeyCode::PageUp | KeyCode::PageDown | KeyCode::Home | KeyCode::End => true,
            KeyCode::Char(c) => c == 'k' || c == 'j',
            _ => false,
        };
        if nav {
            self.git_nav(key);
            Vec::new()
        } else {
            self.git_command(key)
        }
    }
}

} // verus!
