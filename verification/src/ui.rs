//! Screen geometry of the workbench: rectangles, what a click lands on, the
//! split between explorer, editor and terminal, the centred pop-ups, the
//! scroll thumbs and the tab strips.
use vstd::prelude::*;

use crate::text::{display_width, push_str, str_width};


verus! {

/// A rectangle of terminal cells.
#[derive(Debug, Clone, Copy, PartialEq, Eq, Structural)]
pub struct Rect {
    pub x: u16,
    pub y: u16,
    pub width: u16,
    pub height: u16,
}

impl Rect {
    pub fn zero() -> (r: Self)
        ensures
            r == (Rect { x: 0, y: 0, width: 0, height: 0 }),
    {
        Rect { x: 0, y: 0, width: 0, height: 0 }
    }
}

/// `v` cut to what a `u16` holds, as `saturating_add` does.
pub open spec fn sat16(v: int) -> int {
    if v > 0xffff {
        0xffff
    } else {
        v
    }
}

/// `a - b`, or 0 below zero, as `saturating_sub` does.
pub open spec fn monus(a: int, b: int) -> int {
    if a > b {
        a - b
    } else {
        0
    }
}

pub open spec fn clamp_to(v: int, lo: int, hi: int) -> int {
    if v < lo {
        lo
    } else if v > hi {
        hi
    } else {
        v
    }
}

/// Whether the cell at `(col, row)` lies in `a`.
pub open spec fn inside(a: Rect, col: int, row: int) -> bool {
    &&& a.x <= col
    &&& a.y <= row
    &&& col < sat16(a.x + a.width)
    &&& row < sat16(a.y + a.height)
}

pub fn point_in(a: Rect, col: u16, row: u16) -> (r: bool)
    ensures
        r == inside(a, col as int, row as int),
{
    col >= a.x && row >= a.y && col < a.x.saturating_add(a.width) && row < a.y.saturating_add(a.height)
}

/// What a click can land on.
#[derive(Debug, Clone, Copy, PartialEq, Eq, Structural)]
pub enum HitKind {
    FileTab { index: usize },
    FileClose { index: usize },
    TermTab { index: usize },
    TermClose { index: usize },
    TermNew,
    TreeRow,
    ViewerBody,
    TermBody,
    /// The splitter between explorer and editor.
    VSplit,
    /// The splitter between editor and terminal.
    HSplit,
}

/// A click target drawn in the last frame.
#[derive(Debug, Clone, Copy, PartialEq, Eq, Structural)]
pub struct Hit {
    pub kind: HitKind,
    pub area: Rect,
}

/// Bodies take focus on a click but show no pointer.
pub open spec fn is_body(k: HitKind) -> bool {
    k is ViewerBody || k is TermBody
}

/// The last target drawn that holds the cell: later targets lie on top.
pub open spec fn top_hit(hits: Seq<Hit>, col: int, row: int) -> Option<Hit>
    decreases hits.len(),
{
    if hits.len() == 0 {
        None
    } else if inside(hits.last().area, col, row) {
        Some(hits.last())
    } else {
        top_hit(hits.drop_last(), col, row)
    }
}

/// The target under `(col, row)`, the last drawn first.
pub fn hit_at(hits: &Vec<Hit>, col: u16, row: u16) -> (r: Option<Hit>)
    ensures
        r == top_hit(hits@, col as int, row as int),
{
    let mut i = hits.len();
    assert(hits@.take(i as int) =~= hits@);
    while i > 0
        invariant
            i <= hits@.len(),
            top_hit(hits@, col as int, row as int) == top_hit(hits@.take(i as int), col as int, row as int),
        decreases i,
    {
        let h = hits[i - 1];
        proof {
            assert(hits@.take(i as int).drop_last() =~= hits@.take(i - 1));
            assert(hits@.take(i as int).last() == h);
        }
        if point_in(h.area, col, row) {
            return Some(h);
        }
        i = i - 1;
    }
    None
}

/// Whether a target other than a body holds `(col, row)`.
pub open spec fn on_button(hits: Seq<Hit>, col: int, row: int) -> bool {
    exists|i: int| 0 <= i < hits.len() && inside(#[trigger] hits[i].area, col, row) && !is_body(hits[i].kind)
}

pub fn over_button(hits: &Vec<Hit>, col: u16, row: u16) -> (r: bool)
    ensures
        r == on_button(hits@, col as int, row as int),
{
    let mut i: usize = 0;
    while i < hits.len()
        invariant
            i <= hits@.len(),
            forall|j: int| 0 <= j < i ==> !(inside(#[trigger] hits@[j].area, col as int, row as int) && !is_body(hits@[j].kind)),
        decreases hits@.len() - i,
    {
        let h = hits[i];
        let body = match h.kind {
            HitKind::ViewerBody | HitKind::TermBody => true,
            _ => false,
        };
        if point_in(h.area, col, row) && !body {
            return true;
        }
        i = i + 1;
    }
    false
}

// ---------------------------------------------------------------------------
// Splits
// ---------------------------------------------------------------------------

/// The narrowest explorer.
pub const MIN_TREE_WIDTH: u16 = 18;

/// Explorer width when the vertical splitter is dragged to column `col`: the
/// distance from the main area's left edge, at least 18 and leaving 24 columns
/// to the editor where there is room.
pub open spec fn dragged_width(main: Rect, col: int) -> int {
    let hi = if monus(main.width as int, 24) > 18 { monus(main.width as int, 24) } else { 18 };
    clamp_to(monus(col, main.x as int), 18, hi)
}

pub fn drag_tree_width(main: Rect, col: u16) -> (w: u16)
    ensures
        w == dragged_width(main, col as int),
{
    let min_w = MIN_TREE_WIDTH;
    let room = main.width.saturating_sub(24);
    let max_w = if room > min_w { room } else { min_w };
    let w = col.saturating_sub(main.x);
    if w < min_w {
        min_w
    } else if w > max_w {
        max_w
    } else {
        w
    }
}

/// A dragged explorer is at least 18 columns wide, and leaves the editor 24
/// columns wherever the main area has them.
pub proof fn law_dragged_width_bounds(main: Rect, col: int)
    ensures
        18 <= dragged_width(main, col),
        main.width >= 42 ==> dragged_width(main, col) <= main.width - 24,
{
}

/// A dragged split gives the top between 20% and 80% of the main area.
pub proof fn law_dragged_pct_bounds(main: Rect, row: int)
    ensures
        20 <= dragged_pct(main, row) <= 80,
{
}

/// Share of the main area above the terminal, in percent, when the horizontal
/// splitter is dragged to row `row`: within 20 and 80.
pub open spec fn dragged_pct(main: Rect, row: int) -> int {
    let total = if main.height as int > 1 { main.height as int } else { 1 };
    clamp_to(monus(row, main.y as int) * 100 / total, 20, 80)
}

pub fn drag_top_pct(main: Rect, row: u16) -> (p: u16)
    ensures
        p == dragged_pct(main, row as int),
{
    let total: u32 = if main.height > 1 { main.height as u32 } else { 1 };
    let y: u32 = row.saturating_sub(main.y) as u32;
    assert(y * 100 <= 0xffff * 100) by (nonlinear_arith)
        requires
            y <= 0xffff,
    ;
    let pct = (y * 100) / total;
    if pct < 20 {
        20
    } else if pct > 80 {
        80
    } else {
        pct as u16
    }
}

/// Rows above the splitter when the main area is `main_h` rows high and the
/// top takes `top_pct` percent: a share of the rows left beside the splitter,
/// with at least 5 rows on either side.
pub open spec fn top_rows(main_h: int, top_pct: int) -> int {
    let pct = clamp_to(top_pct, 20, 80);
    let avail = monus(main_h, 1);
    clamp_to(avail * pct / 100, 5, monus(avail, 5))
}

pub fn top_height(main_h: u16, top_pct: u16) -> (h: u16)
    requires
        main_h >= 11,
    ensures
        h == top_rows(main_h as int, top_pct as int),
        5 <= h <= main_h - 6,
{
    let pct: u32 = if top_pct < 20 {
        20
    } else if top_pct > 80 {
        80
    } else {
        top_pct as u32
    };
    let avail: u32 = main_h.saturating_sub(1) as u32;
    assert(avail * pct <= 0xffff * 80) by (nonlinear_arith)
        requires
            avail <= 0xffff,
            pct <= 80,
    ;
    let share = (avail * pct) / 100;
    let hi = avail - 5;
    let h = if share < 5 {
        5
    } else if share > hi {
        hi
    } else {
        share
    };
    h as u16
}

// ---------------------------------------------------------------------------
// Pop-ups, thumbs, windows
// ---------------------------------------------------------------------------

/// A pop-up `width` by `height` centred in `area`.
pub open spec fn centred(area: Rect, width: int, height: int) -> Rect {
    Rect {
        x: (area.x + monus(area.width as int, width) / 2) as u16,
        y: (area.y + monus(area.height as int, height) / 2) as u16,
        width: width as u16,
        height: height as u16,
    }
}

pub open spec fn fits(area: Rect) -> bool {
    area.x + area.width <= 0xffff && area.y + area.height <= 0xffff
}

fn centre(area: Rect, width: u16, height: u16) -> (r: Rect)
    requires
        fits(area),
    ensures
        r == centred(area, width as int, height as int),
{
    let x = area.x + area.width.saturating_sub(width) / 2;
    let y = area.y + area.height.saturating_sub(height) / 2;
    Rect { x, y, width, height }
}

/// The help pop-up: 40 to 72 columns and 16 to 28 rows, centred.
pub open spec fn help_area(area: Rect) -> Rect {
    let w = if area.width < 72 { area.width as int } else { 72 };
    let h = if area.height < 28 { area.height as int } else { 28 };
    centred(area, if w > 40 { w } else { 40 }, if h > 16 { h } else { 16 })
}

pub fn help_popup(area: Rect) -> (r: Rect)
    requires
        fits(area),
    ensures
        r == help_area(area),
{
    let w = if area.width < 72 { area.width } else { 72 };
    let h = if area.height < 28 { area.height } else { 28 };
    centre(area, if w > 40 { w } else { 40 }, if h > 16 { h } else { 16 })
}

/// The quick-open pop-up for `hits` results: 42 to 78 columns; room for 3 to
/// 16 results and 7 rows of frame, within the screen less 2 rows, at least 10.
pub open spec fn search_area(area: Rect, hits: int) -> Rect {
    let w = if area.width < 78 { area.width as int } else { 78 };
    let list_h = clamp_to(hits, 3, 16);
    let h0 = if list_h + 7 < monus(area.height as int, 2) { list_h + 7 } else { monus(area.height as int, 2) };
    centred(area, if w > 42 { w } else { 42 }, if h0 > 10 { h0 } else { 10 })
}

pub fn search_popup(area: Rect, hits: u16) -> (r: Rect)
    requires
        fits(area),
    ensures
        r == search_area(area, hits as int),
{
    let w = if area.width < 78 { area.width } else { 78 };
    let list_h: u16 = if hits < 3 {
        3
    } else if hits > 16 {
        16
    } else {
        hits
    };
    let room = area.height.saturating_sub(2);
    let h0 = if list_h + 7 < room { list_h + 7 } else { room };
    centre(area, if w > 42 { w } else { 42 }, if h0 > 10 { h0 } else { 10 })
}

/// The theme picker for `count` palettes: 36 to 56 columns, `count + 6` rows
/// within the screen less 2 rows.
pub open spec fn themes_area(area: Rect, count: int) -> Rect {
    let w = if area.width < 56 { area.width as int } else { 56 };
    let h = if count + 6 < monus(area.height as int, 2) { count + 6 } else { monus(area.height as int, 2) };
    centred(area, if w > 36 { w } else { 36 }, h)
}

pub fn themes_popup(area: Rect, count: u16) -> (r: Rect)
    requires
        fits(area),
        count <= 100,
    ensures
        r == themes_area(area, count as int),
{
    let w = if area.width < 56 { area.width } else { 56 };
    let room = area.height.saturating_sub(2);
    let h = if count + 6 < room { count + 6 } else { room };
    centre(area, if w > 36 { w } else { 36 }, h)
}

/// First result shown in a list of `len` results with `rows` rows when the
/// cursor is at `cursor`: the cursor is kept near the middle.
pub open spec fn window_start(cursor: int, rows: int, len: int) -> int {
    let s = monus(cursor, monus(rows, 1) / 2);
    if s < monus(len, rows) {
        s
    } else {
        monus(len, rows)
    }
}

pub fn list_window(cursor: usize, rows: usize, len: usize) -> (s: usize)
    ensures
        s == window_start(cursor as int, rows as int, len as int),
{
    let s = cursor.saturating_sub(rows.saturating_sub(1) / 2);
    let m = len.saturating_sub(rows);
    if s < m {
        s
    } else {
        m
    }
}

/// The scroll thumb of a list of `total` rows showing `height` of them from
/// `scroll` on a track of `track` rows: its height and offset from the top.
pub open spec fn thumb(total: int, height: int, scroll: int, track: int) -> (int, int) {
    let t = if track > 1 { track } else { 1 };
    let h = if height * t / total > 1 { height * t / total } else { 1 };
    let max_scroll = if monus(total, height) > 1 { monus(total, height) } else { 1 };
    (h, scroll * monus(t, h) / max_scroll)
}

pub fn scroll_thumb(total: u64, height: u64, scroll: u64, track: u16) -> (r: (u64, u64))
    requires
        total > 0,
        height <= 0xffff,
        scroll <= 0xffff_ffff,
    ensures
        (r.0 as int, r.1 as int) == thumb(total as int, height as int, scroll as int, track as int),
{
    let t: u64 = if track > 1 { track as u64 } else { 1 };
    assert(height * t <= 0xffff * 0xffff) by (nonlinear_arith)
        requires
            height <= 0xffff,
            t <= 0xffff,
    ;
    let q = (height * t) / total;
    let h = if q > 1 { q } else { 1 };
    let m = total.saturating_sub(height);
    let max_scroll = if m > 1 { m } else { 1 };
    let room = t.saturating_sub(h);
    assert(scroll * room <= 0xffff_ffff * 0xffff) by (nonlinear_arith)
        requires
            scroll <= 0xffff_ffff,
            room <= 0xffff,
    ;
    (h, (scroll * room) / max_scroll)
}


// ---------------------------------------------------------------------------
// Rows and tabs
// ---------------------------------------------------------------------------

/// How a status marker is coloured.
#[derive(Debug, Clone, Copy, PartialEq, Eq, Structural)]
pub enum Role {
    Modified,
    Added,
    Deleted,
    Plain,
}

/// The colour of an explorer row's marker: modified (also a directory
/// holding changes, `•`), added or untracked, deleted, else the name's.
pub open spec fn marker_role_of(c: Option<char>) -> Role {
    match c {
        Some(m) => if m == 'M' || m == 'U' || m == '•' {
            Role::Modified
        } else if m == 'A' || m == '?' {
            Role::Added
        } else if m == 'D' {
            Role::Deleted
        } else {
            Role::Plain
        },
        None => Role::Plain,
    }
}

pub fn marker_role(c: Option<char>) -> (r: Role)
    ensures
        r == marker_role_of(c),
{
    match c {
        Some(m) => if m == 'M' || m == 'U' || m == '•' {
            Role::Modified
        } else if m == 'A' || m == '?' {
            Role::Added
        } else if m == 'D' {
            Role::Deleted
        } else {
            Role::Plain
        },
        None => Role::Plain,
    }
}

/// The colour of a git row's code, by the larger of its two status
/// characters: modified, unmerged, renamed or copied; added or untracked;
/// deleted; else muted.
pub open spec fn code_role_of(index: char, worktree: char) -> Role {
    let m = if (worktree as u32) >= (index as u32) { worktree } else { index };
    if m == 'M' || m == 'U' || m == 'R' || m == 'C' {
        Role::Modified
    } else if m == 'A' || m == '?' {
        Role::Added
    } else if m == 'D' {
        Role::Deleted
    } else {
        Role::Plain
    }
}

pub fn code_role(index: char, worktree: char) -> (r: Role)
    ensures
        r == code_role_of(index, worktree),
{
    let m = if (worktree as u32) >= (index as u32) { worktree } else { index };
    if m == 'M' || m == 'U' || m == 'R' || m == 'C' {
        Role::Modified
    } else if m == 'A' || m == '?' {
        Role::Added
    } else if m == 'D' {
        Role::Deleted
    } else {
        Role::Plain
    }
}

/// The start of an explorer row: two spaces per level, the chevron of a
/// directory (open or closed) or a blank for a file, then a space.
pub open spec fn row_prefix_of(depth: nat, is_dir: bool, expanded: bool) -> Seq<char> {
    Seq::new(2 * depth, |i: int| ' ') + seq![if is_dir { if expanded { '▾' } else { '▸' } } else { ' ' }, ' ']
}

pub fn row_prefix(depth: u16, is_dir: bool, expanded: bool) -> (r: String)
    ensures
        r@ == row_prefix_of(depth as nat, is_dir, expanded),
{
    let mut s = String::new();
    let mut k: u32 = 0;
    while k < 2 * (depth as u32)
        invariant
            k <= 2 * depth,
            s@ == Seq::new(k as nat, |i: int| ' '),
        decreases 2 * depth - k,
    {
        crate::text::push_char(&mut s, ' ');
        k = k + 1;
        assert(s@ =~= Seq::new(k as nat, |i: int| ' '));
    }
    let c = if is_dir {
        if expanded { '▾' } else { '▸' }
    } else {
        ' '
    };
    let ghost before = s@;
    crate::text::push_char(&mut s, c);
    crate::text::push_char(&mut s, ' ');
    assert(s@ =~= before + seq![c, ' ']);
    s
}

/// A tab's label, as drawn on a tab strip.
pub open spec fn file_tab_label(title: Seq<char>) -> Seq<char> {
    "  "@ + title + "  "@
}

/// A terminal tab's label: `●` while its shell runs, else `○`.
pub open spec fn term_tab_label(title: Seq<char>, alive: bool) -> Seq<char> {
    "  "@ + (if alive { "●"@ } else { "○"@ }) + " "@ + title + "  "@
}

/// Where a tab strip starts the tab after one `label` wide at `x`: past the
/// label, a close button 5 wide and a separator `gap` wide, each step held
/// in 16 bits.
pub open spec fn next_tab_x(x: int, label: int, gap: int) -> int {
    sat16(sat16(sat16(x + label) + 5) + gap)
}

/// The left edge of tab `k` on a strip starting at `x0`.
pub open spec fn tab_x(widths: Seq<u16>, x0: int, gap: int, k: int) -> int
    decreases k,
{
    if k <= 0 || k > widths.len() {
        x0
    } else {
        next_tab_x(tab_x(widths, x0, gap, k - 1), widths[k - 1] as int, gap)
    }
}

/// The targets of a tab strip, two per tab: the label and its close button.
pub open spec fn strip_hit(widths: Seq<u16>, x0: int, y: u16, gap: int, terms: bool, j: int) -> Hit {
    let k = j / 2;
    let x = tab_x(widths, x0, gap, k);
    if j % 2 == 0 {
        Hit {
            kind: if terms { HitKind::TermTab { index: k as usize } } else { HitKind::FileTab { index: k as usize } },
            area: Rect { x: x as u16, y, width: widths[k], height: 1 },
        }
    } else {
        Hit {
            kind: if terms { HitKind::TermClose { index: k as usize } } else { HitKind::FileClose { index: k as usize } },
            area: Rect { x: sat16(x + widths[k]) as u16, y, width: 5, height: 1 },
        }
    }
}

/// The targets of a strip of tabs with labels `widths` wide from `(x0, y)`.
pub fn strip_hits(widths: &Vec<u16>, x0: u16, y: u16, gap: u16, terms: bool) -> (r: (Vec<Hit>, u16))
    ensures
        r.0@.len() == 2 * widths@.len(),
        forall|j: int| 0 <= j < r.0@.len() ==> #[trigger] r.0@[j] == strip_hit(widths@, x0 as int, y, gap as int, terms, j),
        r.1 == tab_x(widths@, x0 as int, gap as int, widths@.len() as int),
{
    let mut out: Vec<Hit> = Vec::new();
    let mut x = x0;
    let mut k: usize = 0;
    while k < widths.len()
        invariant
            k <= widths@.len(),
            out@.len() == 2 * k,
            x == tab_x(widths@, x0 as int, gap as int, k as int),
            forall|j: int| 0 <= j < out@.len() ==> #[trigger] out@[j] == strip_hit(widths@, x0 as int, y, gap as int, terms, j),
        decreases widths@.len() - k,
    {
        let w = widths[k];
        let label = if terms { HitKind::TermTab { index: k } } else { HitKind::FileTab { index: k } };
        let close = if terms { HitKind::TermClose { index: k } } else { HitKind::FileClose { index: k } };
        out.push(Hit { kind: label, area: Rect { x, y, width: w, height: 1 } });
        let cx = x.saturating_add(w);
        out.push(Hit { kind: close, area: Rect { x: cx, y, width: 5, height: 1 } });
        proof {
            assert((2 * k as int) / 2 == k as int);
            assert((2 * k as int + 1) / 2 == k as int);
        }
        x = cx.saturating_add(5).saturating_add(gap);
        k = k + 1;
    }
    (out, x)
}

/// The widths of the labels of file tabs titled `titles`.
pub fn file_tab_widths(titles: &Vec<String>) -> (r: Vec<u16>)
    ensures
        r@.len() == titles@.len(),
        forall|k: int| 0 <= k < r@.len() ==> #[trigger] r@[k] == (display_width(file_tab_label(titles@[k]@)) as u16),
{
    let mut out: Vec<u16> = Vec::new();
    let mut k: usize = 0;
    while k < titles.len()
        invariant
            k <= titles@.len(),
            out@.len() == k,
            forall|j: int| 0 <= j < k ==> #[trigger] out@[j] == (display_width(file_tab_label(titles@[j]@)) as u16),
        decreases titles@.len() - k,
    {
        let mut label = String::from_str("  ");
        push_str(&mut label, titles[k].as_str());
        push_str(&mut label, "  ");
        let w = str_width(label.as_str());
        out.push(w as u16);
        k = k + 1;
    }
    out
}

/// The widths of the labels of terminal tabs titled `titles`, with their
/// shells running as `alive` says.
pub fn term_tab_widths(titles: &Vec<String>, alive: &Vec<bool>) -> (r: Vec<u16>)
    requires
        alive@.len() == titles@.len(),
    ensures
        r@.len() == titles@.len(),
        forall|k: int| 0 <= k < r@.len() ==> #[trigger] r@[k] == (display_width(term_tab_label(titles@[k]@, alive@[k])) as u16),
{
    let mut out: Vec<u16> = Vec::new();
    let mut k: usize = 0;
    while k < titles.len()
        invariant
            k <= titles@.len(),
            alive@.len() == titles@.len(),
            out@.len() == k,
            forall|j: int| 0 <= j < k ==> #[trigger] out@[j] == (display_width(term_tab_label(titles@[j]@, alive@[j])) as u16),
        decreases titles@.len() - k,
    {
        let mut label = String::from_str("  ");
        push_str(&mut label, if alive[k] { "●" } else { "○" });
        push_str(&mut label, " ");
        push_str(&mut label, titles[k].as_str());
        push_str(&mut label, "  ");
        let w = str_width(label.as_str());
        out.push(w as u16);
        k = k + 1;
    }
    out
}
} // verus!

verus! {

/// The text of the splitter above the terminal while it is hovered or dragged.
pub open spec fn splitter_hint() -> Seq<char> {
    "  ↕ drag to resize terminal  "@
}

/// `n` copies of `c`.
pub open spec fn repeated(c: char, n: int) -> Seq<char> {
    Seq::new(n as nat, |i: int| c)
}

/// The splitter between editor and terminal, `width` columns of `═`; while
/// `focused`, the hint sits in the middle (one column more of `═` on the
/// right when the room is odd), cut to `width` when it does not fit.
pub open spec fn splitter_label_spec(width: int, focused: bool) -> Seq<char> {
    let m = splitter_hint();
    if !focused {
        repeated('═', width)
    } else if width <= m.len() {
        m.take(width)
    } else {
        let left = (width - m.len()) / 2;
        repeated('═', left) + m + repeated('═', width - m.len() - left)
    }
}

fn push_repeated(out: &mut String, c: char, n: usize)
    ensures
        final(out)@ == old(out)@ + repeated(c, n as int),
{
    let mut i: usize = 0;
    while i < n
        invariant
            i <= n,
            out@ == old(out)@ + repeated(c, i as int),
        decreases n - i,
    {
        crate::text::push_char(out, c);
        i = i + 1;
        assert(out@ =~= old(out)@ + repeated(c, i as int));
    }
}

/// The splitter between editor and terminal, as `splitter_label_spec` says.
pub fn splitter_label(width: u16, focused: bool) -> (r: String)
    ensures
        r@ == splitter_label_spec(width as int, focused),
{
    let mut out = String::new();
    if !focused {
        push_repeated(&mut out, '═', width as usize);
        assert(out@ =~= repeated('═', width as int));
        return out;
    }
    let hint = "  ↕ drag to resize terminal  ";
    proof {
        reveal_strlit("  ↕ drag to resize terminal  ");
    }
    let m = crate::text::chars_of(hint);
    let n = m.len();
    let w = width as usize;
    if w <= n {
        out = crate::text::string_of_range(&m, 0, w);
        assert(m@.subrange(0, w as int) =~= m@.take(w as int));
    } else {
        let left = (w - n) / 2;
        push_repeated(&mut out, '═', left);
        push_str(&mut out, hint);
        push_repeated(&mut out, '═', w - n - left);
        assert(out@ =~= repeated('═', left as int) + m@ + repeated('═', (w - n - left) as int));
    }
    out
}

/// The lines of a file that a viewer body `height` rows tall shows when
/// scrolled to `scroll`: from `scroll` (at most the end) for `height` lines.
pub fn line_window(scroll: usize, height: usize, len: usize) -> (r: (usize, usize))
    ensures
        r.0 == (if scroll < len { scroll } else { len }),
        r.1 == (if r.0 + height < len { r.0 + height } else { len as int }),
{
    let start = if scroll < len { scroll } else { len };
    let end = if height < len - start { start + height } else { len };
    (start, end)
}

} // verus!
