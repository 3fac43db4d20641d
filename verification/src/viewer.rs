//! The read-only viewer: open tabs, which one is active, what each shows
//! (file, diff or blame) and where it is scrolled. The rendered lines are of
//! any type `L`; the viewer only holds them.
use vstd::prelude::*;

use crate::git::DiffKind;
use crate::text::{chars_of, compare_chars, push_char, push_str};
use crate::paths::{path_eq, same_path};

verus! {

#[derive(Debug, Clone, Copy, PartialEq, Eq, Structural)]
pub enum ViewMode {
    File,
    Diff(DiffKind),
    Blame,
}

/// The mode after Ctrl+D: file or blame go to the HEAD diff, a diff to the next
/// kind, the staged diff back to the file.
pub open spec fn next_diff_mode(m: ViewMode) -> ViewMode {
    match m {
        ViewMode::File | ViewMode::Blame => ViewMode::Diff(DiffKind::Head),
        ViewMode::Diff(k) => match k {
            DiffKind::Head => ViewMode::Diff(DiffKind::Unstaged),
            DiffKind::Unstaged => ViewMode::Diff(DiffKind::Staged),
            DiffKind::Staged => ViewMode::File,
        },
    }
}

pub struct OpenFile<L> {
    pub path: String,
    pub title: String,
    pub lines: Vec<L>,
    pub scroll: u16,
    pub mode: ViewMode,
}

pub struct FileViewer<L> {
    pub tabs: Vec<OpenFile<L>>,
    pub active: usize,
}

/// `i` is the first tab showing `path` (paths compared as `Path`s).
pub open spec fn first_tab(tabs: Seq<Seq<char>>, path: Seq<char>, i: int) -> bool {
    0 <= i < tabs.len() && same_path(tabs[i], path) && forall|j: int| 0 <= j < i ==> !same_path(tabs[j], path)
}

/// The active tab after the tab at `index` was closed.
pub open spec fn active_after_close(active: int, index: int, len_after: int) -> int {
    if len_after == 0 {
        0
    } else if active >= len_after {
        len_after - 1
    } else if index < active {
        active - 1
    } else {
        active
    }
}

/// The title of a tab for `path`: its file name, else the path itself.
pub open spec fn tab_title(path: Seq<char>) -> Seq<char> {
    match crate::paths::file_name(path) {
        Some(n) => n,
        None => path,
    }
}

impl<L> FileViewer<L> {
    pub open spec fn paths(&self) -> Seq<Seq<char>> {
        self.tabs@.map_values(|t: OpenFile<L>| t.path@)
    }

    /// The active index names a tab whenever there is one.
    pub open spec fn wf(&self) -> bool {
        self.tabs@.len() == 0 || self.active < self.tabs@.len()
    }

    pub open spec fn has_active(&self) -> bool {
        self.active < self.tabs@.len()
    }

    pub open spec fn active_tab(&self) -> OpenFile<L> {
        self.tabs@[self.active as int]
    }

    pub open spec fn mode_spec(&self) -> ViewMode {
        if self.has_active() {
            self.active_tab().mode
        } else {
            ViewMode::File
        }
    }

    pub open spec fn opened(old: Self, new: Self, path: Seq<char>, added: bool) -> bool {
        &&& (old.wf() ==> new.wf())
        &&& ((exists|i: int| first_tab(old.paths(), path, i)) ==> !added && new.tabs == old.tabs && first_tab(
            old.paths(),
            path,
            new.active as int,
        ))
        &&& (!(exists|i: int| first_tab(old.paths(), path, i)) ==> {
            &&& added
            &&& new.tabs@.len() == old.tabs@.len() + 1
            &&& forall|j: int| 0 <= j < old.tabs@.len() ==> #[trigger] new.tabs@[j] == old.tabs@[j]
            &&& new.active == old.tabs@.len()
            &&& new.active_tab().path@ == path
            &&& new.active_tab().title@ == tab_title(path)
            &&& new.active_tab().lines@.len() == 0
            &&& new.active_tab().scroll == 0
            &&& new.active_tab().mode == ViewMode::File
        })
    }

    pub open spec fn closed_active(old: Self, new: Self, r: bool) -> bool {
        &&& new.wf()
        &&& (old.tabs@.len() == 0 ==> !r && new.tabs == old.tabs && new.active == old.active)
        &&& (old.tabs@.len() > 0 && old.active < old.tabs@.len() ==> r && new.tabs@ == old.tabs@.remove(
            old.active as int,
        ) && new.active == active_after_close(old.active as int, old.active as int, new.tabs@.len() as int))
    }

    pub open spec fn closed_at(old: Self, new: Self, index: usize, r: bool) -> bool {
        &&& new.wf()
        &&& (index >= old.tabs@.len() ==> !r && new.tabs == old.tabs && new.active == old.active)
        &&& (index < old.tabs@.len() ==> r && new.tabs@ == old.tabs@.remove(index as int) && new.active
            == active_after_close(old.active as int, index as int, new.tabs@.len() as int))
    }

    pub open spec fn diff_toggled(old: Self, new: Self, r: bool) -> bool {
        &&& (r == old.has_active())
        &&& (new.active == old.active)
        &&& (r ==> new.tabs@ == old.tabs@.update(
                        old.active as int,
                        OpenFile { mode: next_diff_mode(old.active_tab().mode), scroll: 0, ..old.active_tab() },
                    ))
        &&& (!r ==> new.tabs == old.tabs)
    }

    pub open spec fn diff_set(old: Self, new: Self, kind: DiffKind, r: bool) -> bool {
        &&& (r == old.has_active())
        &&& (new.active == old.active)
        &&& (r ==> new.tabs@ == old.tabs@.update(
                        old.active as int,
                        OpenFile { mode: ViewMode::Diff(kind), scroll: 0, ..old.active_tab() },
                    ))
        &&& (!r ==> new.tabs == old.tabs)
    }

    pub open spec fn blame_toggled_post(old: Self, new: Self, r: bool) -> bool {
        &&& (r == old.has_active())
        &&& (new.active == old.active)
        &&& (r ==> new.tabs@ == old.tabs@.update(
                        old.active as int,
                        OpenFile { mode: blame_toggled(old.active_tab().mode), scroll: 0, ..old.active_tab() },
                    ))
        &&& (!r ==> new.tabs == old.tabs)
    }

    pub open spec fn blame_shown(old: Self, new: Self, r: bool) -> bool {
        &&& (r == old.has_active())
        &&& (new.active == old.active)
        &&& (r ==> new.tabs@ == old.tabs@.update(
                        old.active as int,
                        OpenFile { mode: ViewMode::Blame, scroll: 0, ..old.active_tab() },
                    ))
        &&& (!r ==> new.tabs == old.tabs)
    }

    pub open spec fn scrolled_by(old: Self, new: Self, delta: i32, height: u16) -> bool {
        &&& (new.active == old.active)
        &&& (!old.has_active() ==> new.tabs == old.tabs)
        &&& (old.has_active() ==> {
                        let t = old.active_tab();
                        let max = (if t.lines@.len() > height { t.lines@.len() - height } else { 0 }) as u16;
                        let next = t.scroll + delta;
                        new.tabs@ == old.tabs@.update(
                            old.active as int,
                            OpenFile {
                                scroll: (if next < 0 { 0 } else if next > max { max as int } else { next }) as u16,
                                ..t
                            },
                        )
                    })
    }

    pub open spec fn scroll_set(old: Self, new: Self, scroll: u16) -> bool {
        &&& (new.active == old.active)
        &&& (!old.has_active() ==> new.tabs == old.tabs)
        &&& (old.has_active() ==> new.tabs@ == old.tabs@.update(
                        old.active as int,
                        OpenFile { scroll, ..old.active_tab() },
                    ))
    }

    pub fn new() -> (r: Self)
        ensures
            r.tabs@.len() == 0,
            r.active == 0,
    {
        FileViewer { tabs: Vec::new(), active: 0 }
    }

    pub fn is_empty(&self) -> (r: bool)
        ensures
            r == (self.tabs@.len() == 0),
    {
        self.tabs.len() == 0
    }

    pub fn active(&self) -> (r: Option<&OpenFile<L>>)
        ensures
            self.has_active() ==> r == Some(&self.active_tab()),
            !self.has_active() ==> r is None,
    {
        if self.active < self.tabs.len() {
            Some(&self.tabs[self.active])
        } else {
            None
        }
    }

    pub fn path(&self) -> (r: Option<&String>)
        ensures
            self.has_active() ==> r == Some(&self.active_tab().path),
            !self.has_active() ==> r is None,
    {
        if self.active < self.tabs.len() {
            Some(&self.tabs[self.active].path)
        } else {
            None
        }
    }

    pub fn title(&self) -> (r: &str)
        ensures
            self.has_active() ==> r@ == self.active_tab().title@,
            !self.has_active() ==> r@ == "No file open"@,
    {
        if self.active < self.tabs.len() {
            self.tabs[self.active].title.as_str()
        } else {
            "No file open"
        }
    }

    pub fn mode(&self) -> (r: ViewMode)
        ensures
            r == self.mode_spec(),
    {
        if self.active < self.tabs.len() {
            self.tabs[self.active].mode
        } else {
            ViewMode::File
        }
    }

    pub fn show_diff(&self) -> (r: bool)
        ensures
            r == (self.mode_spec() is Diff),
    {
        match self.mode() {
            ViewMode::Diff(_) => true,
            _ => false,
        }
    }

    /// The mode shown in the status bar.
    pub fn mode_label(&self) -> (r: &'static str)
        ensures
            r@ == match self.mode_spec() {
                ViewMode::File => "EDITOR"@,
                ViewMode::Diff(k) => match k {
                    DiffKind::Head => "diff"@,
                    DiffKind::Unstaged => "unstaged"@,
                    DiffKind::Staged => "staged"@,
                },
                ViewMode::Blame => "BLAME"@,
            },
    {
        match self.mode() {
            ViewMode::File => "EDITOR",
            ViewMode::Diff(kind) => kind.label(),
            ViewMode::Blame => "BLAME",
        }
    }

    pub fn lines(&self) -> (r: &[L])
        ensures
            self.has_active() ==> r@ == self.active_tab().lines@,
            !self.has_active() ==> r@.len() == 0,
    {
        if self.active < self.tabs.len() {
            self.tabs[self.active].lines.as_slice()
        } else {
            &[]
        }
    }

    pub fn scroll(&self) -> (r: u16)
        ensures
            r == if self.has_active() { self.active_tab().scroll } else { 0 },
    {
        if self.active < self.tabs.len() {
            self.tabs[self.active].scroll
        } else {
            0
        }
    }

    /// Position of the first tab showing `path`.
    fn position(&self, path: &Vec<char>) -> (r: Option<usize>)
        ensures
            match r {
                None => forall|j: int| 0 <= j < self.tabs@.len() ==> !same_path(#[trigger] self.paths()[j], path@),
                Some(i) => first_tab(self.paths(), path@, i as int),
            },
    {
        let mut i: usize = 0;
        while i < self.tabs.len()
            invariant
                i <= self.tabs@.len(),
                forall|j: int| 0 <= j < i ==> !same_path(#[trigger] self.paths()[j], path@),
            decreases self.tabs@.len() - i,
        {
            let p = chars_of(self.tabs[i].path.as_str());
            if path_eq(&p, path) {
                return Some(i);
            }
            i = i + 1;
        }
        None
    }

    /// Shows `path`: activates its tab if open, else opens a new tab for it (in
    /// file mode, at the top, with no lines yet) and returns `true` so that the
    /// caller loads it.
    pub fn open(&mut self, path: &str) -> (added: bool)
        ensures
            Self::opened(*old(self), *final(self), path@, added),
    {
        let pc = chars_of(path);
        match self.position(&pc) {
            Some(i) => {
                self.active = i;
                false
            },
            None => {
                let title = match crate::paths::path_file_name(&pc) {
                    Some(n) => n,
                    None => String::from_str(path),
                };
                let tab = OpenFile {
                    path: String::from_str(path),
                    title,
                    lines: Vec::new(),
                    scroll: 0,
                    mode: ViewMode::File,
                };
                self.tabs.push(tab);
                self.active = self.tabs.len() - 1;
                proof {
                    assert forall|i: int| !first_tab(old(self).paths(), path@, i) by {
                        if 0 <= i < old(self).tabs@.len() {
                            assert(!same_path(old(self).paths()[i], path@));
                        }
                    }
                }
                true
            },
        }
    }

    /// Closes the active tab; `false` when no tab is open.
    pub fn close_active(&mut self) -> (r: bool)
        requires
            old(self).wf(),
        ensures
            Self::closed_active(*old(self), *final(self), r),
    {
        if self.tabs.len() == 0 {
            return false;
        }
        self.tabs.remove(self.active);
        if self.tabs.len() == 0 {
            self.active = 0;
        } else if self.active >= self.tabs.len() {
            self.active = self.tabs.len() - 1;
        }
        true
    }

    /// Closes the tab at `index`; `false` when there is none.
    pub fn close_at(&mut self, index: usize) -> (r: bool)
        requires
            old(self).wf(),
        ensures
            Self::closed_at(*old(self), *final(self), index, r),
    {
        if index >= self.tabs.len() {
            return false;
        }
        self.tabs.remove(index);
        if self.tabs.len() == 0 {
            self.active = 0;
        } else if self.active >= self.tabs.len() {
            self.active = self.tabs.len() - 1;
        } else if index < self.active {
            self.active = self.active - 1;
        }
        true
    }

    /// Positions of the tabs that show `path`.
    pub fn tabs_showing(&self, path: &str) -> (r: Vec<usize>)
        ensures
            forall|k: int| 0 <= k < r@.len() ==> #[trigger] r@[k] < self.tabs@.len() && same_path(self.paths()[r@[k] as int], path@),
            forall|j: int| 0 <= j < self.tabs@.len() && same_path(self.paths()[j], path@) ==> r@.contains(j as usize),
    {
        let pc = chars_of(path);
        let mut r: Vec<usize> = Vec::new();
        let mut i: usize = 0;
        while i < self.tabs.len()
            invariant
                i <= self.tabs@.len(),
                pc@ == path@,
                forall|k: int| 0 <= k < r@.len() ==> #[trigger] r@[k] < self.tabs@.len() && same_path(self.paths()[r@[k] as int], path@),
                forall|j: int| 0 <= j < i && same_path(self.paths()[j], path@) ==> r@.contains(j as usize),
            decreases self.tabs@.len() - i,
        {
            let p = chars_of(self.tabs[i].path.as_str());
            if path_eq(&p, &pc) {
                let ghost old_r = r@;
                r.push(i);
                assert forall|j: int| 0 <= j < i && same_path(self.paths()[j], path@) implies r@.contains(j as usize) by {
                    let k = choose|k: int| 0 <= k < old_r.len() && old_r[k] == j as usize;
                    assert(r@[k] == j as usize);
                }
                assert(r@[r@.len() - 1] == i);
            }
            i = i + 1;
        }
        r
    }

    /// Replaces the lines shown by tab `index`.
    pub fn set_lines(&mut self, index: usize, lines: Vec<L>)
        ensures
            index < old(self).tabs@.len() ==> final(self).tabs@ == old(self).tabs@.update(
                index as int,
                OpenFile { lines, ..old(self).tabs@[index as int] },
            ),
            index >= old(self).tabs@.len() ==> final(self).tabs == old(self).tabs,
            final(self).active == old(self).active,
    {
        if index < self.tabs.len() {
            self.tabs[index].lines = lines;
        }
    }

    /// Gives the active tab the mode `mode` and scrolls it to the top; `false`
    /// when no tab is active.
    fn set_active_mode(&mut self, mode: ViewMode) -> (r: bool)
        ensures
            r == old(self).has_active(),
            final(self).active == old(self).active,
            r ==> final(self).tabs@ == old(self).tabs@.update(
                old(self).active as int,
                OpenFile { mode, scroll: 0, ..old(self).tabs@[old(self).active as int] },
            ),
            !r ==> final(self).tabs == old(self).tabs,
    {
        if self.active >= self.tabs.len() {
            return false;
        }
        let i = self.active;
        self.tabs[i].mode = mode;
        self.tabs[i].scroll = 0;
        true
    }

    /// Cycle file → HEAD diff → unstaged → staged → file. Returns whether the
    /// active tab changed and must be reloaded.
    pub fn toggle_diff(&mut self) -> (r: bool)
        ensures
            Self::diff_toggled(*old(self), *final(self), r),
    {
        if self.active >= self.tabs.len() {
            return false;
        }
        let next = match self.tabs[self.active].mode {
            ViewMode::File | ViewMode::Blame => ViewMode::Diff(DiffKind::first()),
            ViewMode::Diff(kind) => match kind.cycle() {
                Some(n) => ViewMode::Diff(n),
                None => ViewMode::File,
            },
        };
        self.set_active_mode(next)
    }

    /// Shows the diff of kind `kind` in the active tab.
    pub fn set_diff_kind(&mut self, kind: DiffKind) -> (r: bool)
        ensures
            Self::diff_set(*old(self), *final(self), kind, r),
    {
        self.set_active_mode(ViewMode::Diff(kind))
    }

    /// Blame on, or back to the file when blame is on.
    pub fn toggle_blame(&mut self) -> (r: bool)
        ensures
            Self::blame_toggled_post(*old(self), *final(self), r),
    {
        if self.active >= self.tabs.len() {
            return false;
        }
        let next = match self.tabs[self.active].mode {
            ViewMode::Blame => ViewMode::File,
            _ => ViewMode::Blame,
        };
        self.set_active_mode(next)
    }

    pub fn show_blame(&mut self) -> (r: bool)
        ensures
            Self::blame_shown(*old(self), *final(self), r),
    {
        self.set_active_mode(ViewMode::Blame)
    }

    /// Scrolls the active tab by `delta` lines within `[0, lines - height]`.
    pub fn scroll_by(&mut self, delta: i32, height: u16)
        requires
            delta < i32::MAX - 0xffff,
        ensures
            Self::scrolled_by(*old(self), *final(self), delta, height),
    {
        if self.active >= self.tabs.len() {
            return;
        }
        let i = self.active;
        let len = self.tabs[i].lines.len();
        let max: u16 = (if len > height as usize { len - height as usize } else { 0 }) as u16;
        let next: i32 = self.tabs[i].scroll as i32 + delta;
        let s: i32 = if next < 0 {
            0
        } else if next > max as i32 {
            max as i32
        } else {
            next
        };
        self.tabs[i].scroll = s as u16;
    }

    pub fn set_scroll(&mut self, scroll: u16)
        ensures
            Self::scroll_set(*old(self), *final(self), scroll),
    {
        if self.active < self.tabs.len() {
            let i = self.active;
            self.tabs[i].scroll = scroll;
        }
    }
}

// ---------------------------------------------------------------------------
// Text shown in the viewer
// ---------------------------------------------------------------------------

/// How a line of a diff is coloured.
#[derive(Debug, Clone, Copy, PartialEq, Eq, Structural)]
pub enum DiffLineKind {
    Added,
    Removed,
    Hunk,
    Context,
}

pub open spec fn diff_line_kind_of(line: Seq<char>) -> DiffLineKind {
    if crate::text::has_prefix(line, seq!['+']) && !crate::text::has_prefix(line, seq!['+', '+', '+']) {
        DiffLineKind::Added
    } else if crate::text::has_prefix(line, seq!['-']) && !crate::text::has_prefix(line, seq!['-', '-', '-']) {
        DiffLineKind::Removed
    } else if crate::text::has_prefix(line, seq!['@', '@']) {
        DiffLineKind::Hunk
    } else {
        DiffLineKind::Context
    }
}

proof fn lemma_prefix1(s: Seq<char>, a: char)
    ensures
        crate::text::has_prefix(s, seq![a]) <==> (s.len() >= 1 && s[0] == a),
{
    if s.len() >= 1 {
        assert(s.take(1)[0] == s[0]);
        if s[0] == a {
            assert(s.take(1) =~= seq![a]);
        }
    }
}

proof fn lemma_prefix2(s: Seq<char>, a: char, b: char)
    ensures
        crate::text::has_prefix(s, seq![a, b]) <==> (s.len() >= 2 && s[0] == a && s[1] == b),
{
    if s.len() >= 2 {
        assert(s.take(2)[0] == s[0]);
        assert(s.take(2)[1] == s[1]);
        if s[0] == a && s[1] == b {
            assert(s.take(2) =~= seq![a, b]);
        }
    }
}

proof fn lemma_prefix3(s: Seq<char>, a: char, b: char, c: char)
    ensures
        crate::text::has_prefix(s, seq![a, b, c]) <==> (s.len() >= 3 && s[0] == a && s[1] == b && s[2] == c),
{
    if s.len() >= 3 {
        assert(s.take(3)[0] == s[0]);
        assert(s.take(3)[1] == s[1]);
        assert(s.take(3)[2] == s[2]);
        if s[0] == a && s[1] == b && s[2] == c {
            assert(s.take(3) =~= seq![a, b, c]);
        }
    }
}

/// Added lines start with `+` (not `+++`), removed with `-` (not `---`), hunk
/// headers with `@@`.
pub fn diff_line_kind(line: &str) -> (k: DiffLineKind)
    ensures
        k == diff_line_kind_of(line@),
{
    let v = chars_of(line);
    let n = v.len();
    let plus = n >= 1 && v[0] == '+';
    let plus3 = n >= 3 && v[0] == '+' && v[1] == '+' && v[2] == '+';
    let minus = n >= 1 && v[0] == '-';
    let minus3 = n >= 3 && v[0] == '-' && v[1] == '-' && v[2] == '-';
    let hunk = n >= 2 && v[0] == '@' && v[1] == '@';
    proof {
        lemma_prefix3(v@, '+', '+', '+');
        lemma_prefix3(v@, '-', '-', '-');
        lemma_prefix2(v@, '@', '@');
        lemma_prefix1(v@, '+');
        lemma_prefix1(v@, '-');
    }
    if plus && !plus3 {
        DiffLineKind::Added
    } else if minus && !minus3 {
        DiffLineKind::Removed
    } else if hunk {
        DiffLineKind::Hunk
    } else {
        DiffLineKind::Context
    }
}

/// `s` cut to its first `max` characters and padded with spaces to `max`.
pub open spec fn fit_width(s: Seq<char>, max: int) -> Seq<char> {
    let kept = if s.len() < max { s } else { s.take(max) };
    kept + Seq::new((max - kept.len()) as nat, |i: int| ' ')
}

/// The first `max` characters of `s`, padded with spaces to `max` characters.
pub fn truncate_str(s: &str, max: usize) -> (r: String)
    ensures
        r@ == fit_width(s@, max as int),
{
    let v = chars_of(s);
    let mut out = String::new();
    let mut i: usize = 0;
    while i < v.len() && i < max
        invariant
            i <= v@.len(),
            i <= max,
            out@ == v@.take(i as int),
        decreases max - i,
    {
        push_char(&mut out, v[i]);
        i = i + 1;
        assert(out@ =~= v@.take(i as int));
    }
    let ghost kept = out@;
    proof {
        if v@.len() < max {
            assert(v@.take(i as int) =~= v@);
        }
    }
    let mut n = i;
    while n < max
        invariant
            i <= n <= max,
            out@ == kept + Seq::new((n - i) as nat, |k: int| ' '),
        decreases max - n,
    {
        push_char(&mut out, ' ');
        n = n + 1;
        assert(out@ =~= kept + Seq::new((n - i) as nat, |k: int| ' '));
    }
    out
}

/// `s` padded with spaces to at least `width` characters (`{:<width}`).
pub open spec fn pad_right(s: Seq<char>, width: int) -> Seq<char> {
    if s.len() >= width {
        s
    } else {
        s + Seq::new((width - s.len()) as nat, |i: int| ' ')
    }
}

/// The commit and author columns in front of a blamed line.
pub open spec fn blame_prefix_of(sha: Seq<char>, author: Seq<char>) -> Seq<char> {
    pad_right(sha, 7) + seq![' '] + pad_right(fit_width(author, 12), 12) + seq![' ']
}

fn push_padded(out: &mut String, s: &str, width: usize)
    ensures
        final(out)@ == old(out)@ + pad_right(s@, width as int),
{
    push_str(out, s);
    let mut n = s.unicode_len();
    let ghost base = out@;
    while n < width
        invariant
            s@.len() <= n <= width || (n == s@.len() && n >= width),
            out@ == base + Seq::new((n - s@.len()) as nat, |k: int| ' '),
            base == old(out)@ + s@,
        decreases width - n,
    {
        push_char(out, ' ');
        n = n + 1;
        assert(out@ =~= base + Seq::new((n - s@.len()) as nat, |k: int| ' '));
    }
    proof {
        if s@.len() >= width {
            assert(out@ =~= old(out)@ + s@);
        } else {
            assert(out@ =~= old(out)@ + (s@ + Seq::new((width - s@.len()) as nat, |k: int| ' ')));
        }
    }
}

/// `{:<7} {:<12} ` of the short commit and the author cut to 12 characters.
pub fn blame_prefix(sha: &str, author: &str) -> (r: String)
    ensures
        r@ == blame_prefix_of(sha@, author@),
{
    let mut out = String::new();
    push_padded(&mut out, sha, 7);
    push_char(&mut out, ' ');
    let a = truncate_str(author, 12);
    push_padded(&mut out, a.as_str(), 12);
    push_char(&mut out, ' ');
    assert(out@ =~= blame_prefix_of(sha@, author@));
    out
}

/// Ctrl+D cycles through the three diffs and back to the file: four presses
/// return any mode of the cycle to where it started.
pub proof fn law_diff_cycle(m: ViewMode)
    ensures
        m != ViewMode::Blame ==> next_diff_mode(next_diff_mode(next_diff_mode(next_diff_mode(m)))) == m,
        next_diff_mode(m) != ViewMode::Blame,
{
}

/// The blame toggle undoes itself from the file view.
pub proof fn law_blame_toggle(m: ViewMode)
    ensures
        m == ViewMode::File ==> blame_toggled(blame_toggled(m)) == m,
        blame_toggled(ViewMode::Blame) == ViewMode::File,
{
}

/// The mode after the blame toggle.
pub open spec fn blame_toggled(m: ViewMode) -> ViewMode {
    if m == ViewMode::Blame {
        ViewMode::File
    } else {
        ViewMode::Blame
    }
}

/// A padded, cut text always has exactly the requested width.
pub proof fn law_fit_width_len(s: Seq<char>, max: int)
    requires
        max >= 0,
    ensures
        fit_width(s, max).len() == max,
        fit_width(s, max).take(if s.len() < max { s.len() as int } else { max }) == (if s.len() < max { s } else { s.take(max) }),
{
    let kept = if s.len() < max { s } else { s.take(max) };
    assert(fit_width(s, max).take(kept.len() as int) =~= kept);
}

} // verus!

verus! {

/// Closing a tab other than the active one keeps the same file shown: the
/// active tab after the close is the one that was active.
pub proof fn law_close_other_tab_keeps_active<L>(old: FileViewer<L>, new: FileViewer<L>, index: usize, r: bool)
    requires
        old.wf(),
        index < old.tabs@.len(),
        index != old.active,
        FileViewer::<L>::closed_at(old, new, index, r),
    ensures
        new.active < new.tabs@.len(),
        new.tabs@[new.active as int] == old.tabs@[old.active as int],
{
}

} // verus!
