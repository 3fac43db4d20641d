//! What a terminal tab shows: a snapshot of its screen and the styled rows
//! drawn from it, with the caret.
use vstd::prelude::*;

use crate::term::TermPane;
use crate::text::{display_width, is_ws, str_width, trim};
use crate::theme::{Palette, Rgb};

verus! {

/// The rows and columns of the screen of `p` (`vt100::Screen::size`): the size
/// the parser was made with or last resized to.
pub uninterp spec fn screen_dims(p: vt100::Parser) -> (u16, u16);

/// The cursor of the screen of `p` (`vt100::Screen::cursor_position`), as
/// row and column.
pub uninterp spec fn screen_cursor(p: vt100::Parser) -> (u16, u16);

/// The cells that the screen of `p` shows, by row and column
/// (`vt100::Screen::cell`): what the shell's output drew there.
pub uninterp spec fn screen_cells(p: vt100::Parser) -> Map<(int, int), CellV>;

/// `vt100::Screen::size`: the screen's rows and columns.
#[verifier::external_body]
fn screen_size(p: &vt100::Parser) -> (r: (u16, u16))
    ensures
        r == screen_dims(*p),
{
    p.screen().size()
}

/// `vt100::Screen::cursor_position`: row and column of the cursor.
#[verifier::external_body]
fn cursor_position(p: &vt100::Parser) -> (r: (u16, u16))
    ensures
        r == screen_cursor(*p),
{
    p.screen().cursor_position()
}

/// `vt100::Screen::cell`: the text, colours, bold and underline of the cell
/// at `(row, col)`, if the screen has one there.
#[verifier::external_body]
fn cell_at(p: &vt100::Parser, row: u16, col: u16) -> (r: Option<CellView>)
    ensures
        r is Some <==> screen_cells(*p).dom().contains((row as int, col as int)),
        r matches Some(c) ==> c@ == screen_cells(*p)[(row as int, col as int)],
{
    p.screen().cell(row, col).map(|c| CellView {
        text: c.contents(),
        fg: color_of(c.fgcolor()),
        bg: color_of(c.bgcolor()),
        bold: c.bold(),
        underline: c.underline(),
    })
}

/// A colour as the screen holds it.
#[derive(Debug, Clone, Copy, PartialEq, Eq, Structural)]
pub enum TermColor {
    Default,
    Idx(u8),
    Rgb(u8, u8, u8),
}

/// `vt100::Color` as a `TermColor`, variant for variant.
#[verifier::external_body]
fn color_of(c: vt100::Color) -> TermColor {
    match c {
        vt100::Color::Default => TermColor::Default,
        vt100::Color::Idx(n) => TermColor::Idx(n),
        vt100::Color::Rgb(r, g, b) => TermColor::Rgb(r, g, b),
    }
}

/// One cell: its text, foreground, background, bold and underline.
pub struct CellView {
    pub text: String,
    pub fg: TermColor,
    pub bg: TermColor,
    pub bold: bool,
    pub underline: bool,
}

pub type CellV = (Seq<char>, TermColor, TermColor, bool, bool);

impl View for CellView {
    type V = CellV;

    open spec fn view(&self) -> CellV {
        (self.text@, self.fg, self.bg, self.bold, self.underline)
    }
}

/// The part of a screen that is drawn: its cells row by row (a cell the
/// screen lacks is `None`) and the cursor.
pub struct ScreenGrid {
    pub cells: Vec<Vec<Option<CellView>>>,
    /// Columns drawn from the screen; the rest of a row is blank.
    pub cols: u16,
    pub cursor_row: u16,
    pub cursor_col: u16,
}

/// A colour of a drawn span.
#[derive(Debug, Clone, Copy, PartialEq, Eq, Structural)]
pub enum Paint {
    Rgb(Rgb),
    Indexed(u8),
}

/// A run of text in one style.
pub struct TermSpan {
    pub text: String,
    pub fg: Paint,
    pub bg: Paint,
    pub bold: bool,
    pub underline: bool,
}

pub type SpanV = (Seq<char>, Paint, Paint, bool, bool);

impl View for TermSpan {
    type V = SpanV;

    open spec fn view(&self) -> SpanV {
        (self.text@, self.fg, self.bg, self.bold, self.underline)
    }
}

/// The grid as plain values.
pub open spec fn grid_cells(g: Seq<Vec<Option<CellView>>>) -> Seq<Seq<Option<CellV>>> {
    g.map_values(|row: Vec<Option<CellView>>| row@.map_values(|c: Option<CellView>| match c {
        Some(v) => Some(v@),
        None => None,
    }))
}

/// A cell as plain values.
pub open spec fn cell_view(c: Option<CellView>) -> Option<CellV> {
    match c {
        Some(v) => Some(v@),
        None => None,
    }
}

/// The cell at `(r, c)` of the screen of `p`, if it has one there.
pub open spec fn screen_cell(p: vt100::Parser, r: int, c: int) -> Option<CellV> {
    if screen_cells(p).dom().contains((r, c)) {
        Some(screen_cells(p)[(r, c)])
    } else {
        None
    }
}

/// `g` is the part of the screen of `p` that a body `width` by `height`
/// shows: as many rows and columns as both have, each cell as the screen
/// holds it, and the screen's cursor.
pub open spec fn shows_screen(g: ScreenGrid, p: vt100::Parser, width: u16, height: u16) -> bool {
    let (srows, scols) = screen_dims(p);
    &&& g.cells@.len() == (if height < srows { height } else { srows })
    &&& g.cols == (if width < scols { width } else { scols })
    &&& forall|i: int| 0 <= i < g.cells@.len() ==> (#[trigger] g.cells@[i])@.len() == g.cols
    &&& forall|i: int, j: int|
        0 <= i < g.cells@.len() && 0 <= j < g.cols ==> #[trigger] cell_of(grid_cells(g.cells@), i, j)
            == screen_cell(p, i, j)
    &&& (g.cursor_row, g.cursor_col) == screen_cursor(p)
}

/// The cell at `(r, c)`, or `None` outside the grid.
pub open spec fn cell_of(cells: Seq<Seq<Option<CellV>>>, r: int, c: int) -> Option<CellV> {
    if 0 <= r < cells.len() && 0 <= c < cells[r].len() {
        cells[r][c]
    } else {
        None
    }
}

/// A screen colour in the palette: the default foreground is the palette's
/// text colour.
pub open spec fn ansi(p: Palette, c: TermColor) -> Paint {
    match c {
        TermColor::Default => Paint::Rgb(p.fg),
        TermColor::Idx(n) => Paint::Indexed(n),
        TermColor::Rgb(r, g, b) => Paint::Rgb(Rgb { r, g, b }),
    }
}

/// The span of one cell: its text (a blank for an empty cell) in its
/// colours (the default background is the panel's); under the caret, a
/// blank-looking text becomes one space, in the caret's colours and bold.
pub open spec fn cell_span(p: Palette, cell: Option<CellV>, caret: bool) -> SpanV {
    let plain: SpanV = match cell {
        Some(v) => (
            if v.0.len() == 0 { seq![' '] } else { v.0 },
            ansi(p, v.1),
            match v.2 {
                TermColor::Default => Paint::Rgb(p.panel),
                _ => ansi(p, v.2),
            },
            v.3,
            v.4,
        ),
        None => (seq![' '], Paint::Rgb(p.fg), Paint::Rgb(p.panel), false, false),
    };
    if caret {
        (if trim(plain.0).len() == 0 { seq![' '] } else { plain.0 }, Paint::Rgb(p.panel), Paint::Rgb(p.accent_glow), true, false)
    } else {
        plain
    }
}

/// The columns a span advances: its width, at least one.
pub open spec fn advance(text: Seq<char>) -> int {
    if display_width(text) > 1 {
        display_width(text) as int
    } else {
        1
    }
}

/// The spans of row `row` from column `col`: cells up to `cols`, each
/// advancing by its width (held in 16 bits), then blanks up to `width`.
pub open spec fn row_spans(
    p: Palette,
    cells: Seq<Seq<Option<CellV>>>,
    row: int,
    col: int,
    cols: int,
    width: int,
    show: bool,
    cur: (u16, u16),
) -> Seq<SpanV>
    decreases 0x20000 - col,
{
    if col < cols && col < 0xffff {
        let s = cell_span(p, cell_of(cells, row, col), show && row == cur.0 && col == cur.1);
        let next = if col + advance(s.0) > 0xffff { 0xffff } else { col + advance(s.0) };
        seq![s] + row_spans(p, cells, row, next, cols, width, show, cur)
    } else if col < width && col < 0xffff {
        let caret = show && row == cur.0 && col == cur.1;
        let s: SpanV = if caret {
            (seq![' '], Paint::Rgb(p.panel), Paint::Rgb(p.accent_glow), false, false)
        } else {
            (seq![' '], Paint::Rgb(p.fg), Paint::Rgb(p.panel), false, false)
        };
        seq![s] + row_spans(p, cells, row, col + 1, cols, width, show, cur)
    } else {
        Seq::empty()
    }
}


/// The span views.
pub open spec fn span_views(v: Seq<TermSpan>) -> Seq<SpanV> {
    v.map_values(|t: TermSpan| t@)
}

/// `n` spaces.
pub open spec fn blanks(n: int) -> Seq<char> {
    Seq::new(n as nat, |i: int| ' ')
}

/// The rows drawn for a body `width` by `height`: the grid's rows, then
/// rows of blanks in the panel's colours up to `height`.
pub open spec fn drawn_row(p: Palette, g: ScreenGrid, width: int, i: int, show: bool) -> Seq<SpanV> {
    let cells = grid_cells(g.cells@);
    if i < cells.len() {
        row_spans(p, cells, i, 0, g.cols as int, width, show, (g.cursor_row, g.cursor_col))
    } else {
        seq![(blanks(width), Paint::Rgb(p.fg), Paint::Rgb(p.panel), false, false)]
    }
}

fn view_cell(c: &Option<CellView>) -> (r: Option<(String, TermColor, TermColor, bool, bool)>)
    ensures
        match *c {
            None => r is None,
            Some(v) => r matches Some(x) && x.0@ == v.text@ && x.1 == v.fg && x.2 == v.bg && x.3 == v.bold && x.4 == v.underline,
        },
{
    match c {
        None => None,
        Some(v) => Some((v.text.clone(), v.fg, v.bg, v.bold, v.underline)),
    }
}

fn paint_of(p: &Palette, c: TermColor) -> (r: Paint)
    ensures
        r == ansi(*p, c),
{
    match c {
        TermColor::Default => Paint::Rgb(p.fg),
        TermColor::Idx(n) => Paint::Indexed(n),
        TermColor::Rgb(r, g, b) => Paint::Rgb(Rgb { r, g, b }),
    }
}

fn span_of(p: &Palette, cell: &Option<CellView>, caret: bool) -> (r: TermSpan)
    ensures
        r@ == cell_span(*p, match *cell {
            Some(v) => Some(v@),
            None => None,
        }, caret),
{
    let (text, fg, bg, bold, underline) = match view_cell(cell) {
        Some((t, f, b, bo, u)) => {
            let text = if t.as_str().unicode_len() == 0 { String::from_str(" ") } else { t };
            let bgp = match b {
                TermColor::Default => Paint::Rgb(p.panel),
                _ => paint_of(p, b),
            };
            (text, paint_of(p, f), bgp, bo, u)
        },
        None => (String::from_str(" "), Paint::Rgb(p.fg), Paint::Rgb(p.panel), false, false),
    };
    proof {
        reveal_strlit(" ");
    }
    if caret {
        let t = crate::text::trim_string(text.as_str());
        let shown = if t.as_str().unicode_len() == 0 { String::from_str(" ") } else { text };
        TermSpan { text: shown, fg: Paint::Rgb(p.panel), bg: Paint::Rgb(p.accent_glow), bold: true, underline: false }
    } else {
        TermSpan { text, fg, bg, bold, underline }
    }
}

/// The spans of row `row` of the grid for a body `width` columns wide.
fn draw_row(p: &Palette, g: &ScreenGrid, row: usize, width: u16, show: bool) -> (r: Vec<TermSpan>)
    requires
        row < g.cells@.len(),
    ensures
        span_views(r@) == row_spans(*p, grid_cells(g.cells@), row as int, 0, g.cols as int, width as int, show, (g.cursor_row, g.cursor_col)),
{
    let ghost cells = grid_cells(g.cells@);
    let ghost cur = (g.cursor_row, g.cursor_col);
    let ghost total = row_spans(*p, cells, row as int, 0, g.cols as int, width as int, show, cur);
    let mut out: Vec<TermSpan> = Vec::new();
    let mut col: u16 = 0;
    while col < g.cols
        invariant
            row < g.cells@.len(),
            cells == grid_cells(g.cells@),
            cur == (g.cursor_row, g.cursor_col),
            total == span_views(out@) + row_spans(*p, cells, row as int, col as int, g.cols as int, width as int, show, cur),
        decreases 0x10000 - col,
    {
        let caret = show && row == g.cursor_row as usize && col == g.cursor_col;
        let none: Option<CellView> = None;
        let in_row = (col as usize) < g.cells[row].len();
        let s = if in_row {
            span_of(p, &g.cells[row][col as usize], caret)
        } else {
            span_of(p, &none, caret)
        };
        proof {
            assert(cells[row as int] == g.cells@[row as int]@.map_values(|c: Option<CellView>| match c {
                Some(v) => Some(v@),
                None => None,
            }));
            if in_row {
                assert(cell_of(cells, row as int, col as int) == match g.cells@[row as int]@[col as int] {
                    Some(v) => Some(v@),
                    None => None,
                });
            } else {
                assert(cell_of(cells, row as int, col as int) is None);
            }
        }
        let w = str_width(s.text.as_str());
        let cw: u16 = if w > 1 {
            if w > 0xffff {
                0xffff
            } else {
                w as u16
            }
        } else {
            1
        };
        let ghost sv = s@;
        let ghost before = span_views(out@);
        out.push(s);
        assert(cw >= 1);
        assert(col.saturating_add(cw) > col);
        proof {
            assert(cw == if advance(sv.0) > 0xffff { 0xffff } else { advance(sv.0) });
            assert(row_spans(*p, cells, row as int, col as int, g.cols as int, width as int, show, cur) == seq![sv]
                + row_spans(*p, cells, row as int, col.saturating_add(cw) as int, g.cols as int, width as int, show, cur));
            assert(span_views(out@) =~= before.push(sv));
            assert(before.push(sv) + row_spans(*p, cells, row as int, col.saturating_add(cw) as int, g.cols as int, width as int, show, cur)
                =~= before + (seq![sv] + row_spans(*p, cells, row as int, col.saturating_add(cw) as int, g.cols as int, width as int, show, cur)));
        }
        col = col.saturating_add(cw);
    }
    while col < width
        invariant
            col >= g.cols,
            cells == grid_cells(g.cells@),
            cur == (g.cursor_row, g.cursor_col),
            total == span_views(out@) + row_spans(*p, cells, row as int, col as int, g.cols as int, width as int, show, cur),
        decreases width - col,
    {
        let caret = show && row == g.cursor_row as usize && col == g.cursor_col;
        let s = if caret {
            TermSpan { text: String::from_str(" "), fg: Paint::Rgb(p.panel), bg: Paint::Rgb(p.accent_glow), bold: false, underline: false }
        } else {
            TermSpan { text: String::from_str(" "), fg: Paint::Rgb(p.fg), bg: Paint::Rgb(p.panel), bold: false, underline: false }
        };
        proof {
            reveal_strlit(" ");
        }
        let ghost sv = s@;
        let ghost before = span_views(out@);
        out.push(s);
        proof {
            assert(sv.0 =~= seq![' ']);
            assert(row_spans(*p, cells, row as int, col as int, g.cols as int, width as int, show, cur) == seq![sv]
                + row_spans(*p, cells, row as int, col + 1, g.cols as int, width as int, show, cur));
            assert(span_views(out@) =~= before.push(sv));
            assert(before.push(sv) + row_spans(*p, cells, row as int, col + 1, g.cols as int, width as int, show, cur)
                =~= before + (seq![sv] + row_spans(*p, cells, row as int, col + 1, g.cols as int, width as int, show, cur)));
        }
        col = col + 1;
    }
    assert(span_views(out@) =~= total);
    out
}

/// The rows drawn from `g` for a body `width` by `height` in palette `p`,
/// with the caret shown when `draw_caret` and `blink_on` both hold.
pub fn render(p: &Palette, g: &ScreenGrid, width: u16, height: u16, draw_caret: bool, blink_on: bool) -> (r: Vec<Vec<TermSpan>>)
    requires
        g.cells@.len() <= height,
    ensures
        r@.len() == height,
        forall|i: int| 0 <= i < height ==> span_views(#[trigger] r@[i]@) == drawn_row(*p, *g, width as int, i, draw_caret && blink_on),
{
    let show = draw_caret && blink_on;
    let mut out: Vec<Vec<TermSpan>> = Vec::new();
    let mut i: usize = 0;
    while i < g.cells.len()
        invariant
            i <= g.cells@.len(),
            g.cells@.len() <= height,
            out@.len() == i,
            forall|k: int| 0 <= k < i ==> span_views(#[trigger] out@[k]@) == drawn_row(*p, *g, width as int, k, show),
        decreases g.cells@.len() - i,
    {
        let row = draw_row(p, g, i, width, show);
        out.push(row);
        i = i + 1;
    }
    while out.len() < height as usize
        invariant
            g.cells@.len() <= out@.len() <= height,
            forall|k: int| 0 <= k < out@.len() ==> span_views(#[trigger] out@[k]@) == drawn_row(*p, *g, width as int, k, show),
        decreases height - out@.len(),
    {
        let mut text = String::new();
        let mut k: u16 = 0;
        while k < width
            invariant
                k <= width,
                text@ == blanks(k as int),
            decreases width - k,
        {
            crate::text::push_char(&mut text, ' ');
            k = k + 1;
            assert(text@ =~= blanks(k as int));
        }
        let line = vec![TermSpan { text, fg: Paint::Rgb(p.fg), bg: Paint::Rgb(p.panel), bold: false, underline: false }];
        assert(span_views(line@) =~= seq![line@[0]@]);
        out.push(line);
    }
    out
}

impl TermPane {
    /// The part of the screen that a body `width` by `height` shows: as many
    /// rows and columns as both have, each cell as the screen holds it, and
    /// the cursor.
    pub fn snapshot(&self, width: u16, height: u16) -> (g: ScreenGrid)
        ensures
            shows_screen(g, self.parser, width, height),
    {
        let (srows, scols) = screen_size(&self.parser);
        let rows = if height < srows { height } else { srows };
        let cols = if width < scols { width } else { scols };
        let (cr, cc) = cursor_position(&self.parser);
        let mut cells: Vec<Vec<Option<CellView>>> = Vec::new();
        let mut r: u16 = 0;
        while r < rows
            invariant
                r <= rows <= height,
                cols <= width,
                cells@.len() == r,
                forall|i: int| 0 <= i < cells@.len() ==> (#[trigger] cells@[i])@.len() == cols,
                forall|i: int, j: int|
                    0 <= i < cells@.len() && 0 <= j < cols ==> #[trigger] cell_view(cells@[i]@[j])
                        == screen_cell(self.parser, i, j),
            decreases rows - r,
        {
            let mut line: Vec<Option<CellView>> = Vec::new();
            let mut c: u16 = 0;
            while c < cols
                invariant
                    c <= cols,
                    line@.len() == c,
                    forall|j: int| 0 <= j < c ==> #[trigger] cell_view(line@[j]) == screen_cell(self.parser, r as int, j),
                decreases cols - c,
            {
                let cell = cell_at(&self.parser, r, c);
                line.push(cell);
                c = c + 1;
            }
            cells.push(line);
            r = r + 1;
        }
        let g = ScreenGrid { cells, cols, cursor_row: cr, cursor_col: cc };
        assert forall|i: int| 0 <= i < g.cells@.len() implies (#[trigger] g.cells@[i])@.len() == g.cols by {}
        assert forall|i: int, j: int| 0 <= i < g.cells@.len() && 0 <= j < g.cols implies #[trigger] cell_of(
            grid_cells(g.cells@),
            i,
            j,
        ) == screen_cell(self.parser, i, j) by {
            assert(grid_cells(g.cells@)[i][j] == cell_view(g.cells@[i]@[j]));
        }
        g
    }

    /// The styled rows of the terminal for a body `width` by `height`, the
    /// caret drawn when `draw_caret` and `blink_on` both hold. What the
    /// screen holds depends on the shell, so only the shape is stated here;
    /// `render` states the rows for each snapshot.
    pub fn lines(&self, p: &Palette, width: u16, height: u16, draw_caret: bool, blink_on: bool) -> (r: Vec<Vec<TermSpan>>)
        ensures
            r@.len() == height,
            exists|g: ScreenGrid|
                #![trigger shows_screen(g, self.parser, width, height)]
                shows_screen(g, self.parser, width, height) && forall|i: int|
                    0 <= i < height ==> span_views(#[trigger] r@[i]@) == drawn_row(*p, g, width as int, i, draw_caret && blink_on),
    {
        let g = self.snapshot(width, height);
        let r = render(p, &g, width, height, draw_caret, blink_on);
        r
    }

    /// The cursor's row and column on the screen.
    pub fn cursor_pos(&self) -> (r: (u16, u16))
        ensures
            r == screen_cursor(self.parser),
    {
        cursor_position(&self.parser)
    }
}
} // verus!
