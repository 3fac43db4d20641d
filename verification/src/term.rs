//! An embedded terminal: the screen that the shell's output is drawn on, its
//! size and liveness, the bytes that keys send, and the styled rows shown.
use vstd::prelude::*;

use crate::screen::{screen_cursor, screen_dims};

verus! {

#[verifier::external_type_specification]
#[verifier::external_body]
pub struct ExParser(vt100::Parser);

#[verifier::external_type_specification]
#[verifier::external_body]
pub struct ExColor(vt100::Color);

/// `vt100::Parser::new`: a blank screen of `rows` by `cols` keeping
/// `scrollback` rows of history, its cursor in the top left corner.
#[verifier::external_body]
fn parser_new(rows: u16, cols: u16, scrollback: usize) -> (r: vt100::Parser)
    requires
        rows >= 1,
        cols >= 2,
    ensures
        screen_dims(r) == (rows, cols),
        screen_cursor(r) == (0u16, 0u16),
{
    vt100::Parser::new(rows, cols, scrollback)
}

/// `vt100::Parser::process`: feeds the shell's output to the screen. The
/// screen keeps its size; what the output draws is left unstated. A screen
/// narrower than a double-width character cannot take one, so at least two
/// columns are needed.
#[verifier::external_body]
fn parser_process(p: &mut vt100::Parser, bytes: &[u8])
    requires
        screen_dims(*old(p)).0 >= 1,
        screen_dims(*old(p)).1 >= 2,
    ensures
        screen_dims(*final(p)) == screen_dims(*old(p)),
{
    p.process(bytes)
}

/// `vt100::Parser::set_size`: resizes the screen to `rows` by `cols`.
#[verifier::external_body]
fn parser_set_size(p: &mut vt100::Parser, rows: u16, cols: u16)
    requires
        rows >= 1,
        cols >= 2,
    ensures
        screen_dims(*final(p)) == (rows, cols),
{
    p.set_size(rows, cols)
}

/// What the shell sends: output, or the end of its output.
pub enum PtyEvent {
    Output(Vec<u8>),
    Exit,
}

/// The smallest terminal size: 2 rows, 10 columns.
pub open spec fn min_rows(rows: int) -> int {
    if rows < 2 {
        2
    } else {
        rows
    }
}

pub open spec fn min_cols(cols: int) -> int {
    if cols < 10 {
        10
    } else {
        cols
    }
}

/// Rows of history kept above the screen.
pub const SCROLLBACK: usize = 10_000;

/// One terminal tab: its screen, title, whether its shell still runs, and the
/// size the pseudo-terminal was given.
pub struct TermPane {
    pub parser: vt100::Parser,
    pub title: String,
    pub alive: bool,
    pub rows: u16,
    pub cols: u16,
}

impl TermPane {
    /// The screen has the size the pane records, at least 2 rows by 10
    /// columns.
    pub open spec fn wf(&self) -> bool {
        &&& screen_dims(self.parser) == (self.rows, self.cols)
        &&& self.rows >= 2
        &&& self.cols >= 10
    }
}

impl TermPane {
    /// A running terminal titled `title`, at least 2 rows by 10 columns.
    pub fn new(rows: u16, cols: u16, title: String) -> (r: Self)
        ensures
            r.rows == min_rows(rows as int),
            r.cols == min_cols(cols as int),
            r.title == title,
            r.alive,
            r.wf(),
    {
        let rows = if rows < 2 { 2 } else { rows };
        let cols = if cols < 10 { 10 } else { cols };
        TermPane { parser: parser_new(rows, cols, SCROLLBACK), title, alive: true, rows, cols }
    }

    /// Gives the screen the size `rows` by `cols` (at least 2 by 10); `true`
    /// when that differs from the size it had, so that the pseudo-terminal is
    /// resized too.
    pub fn resize(&mut self, rows: u16, cols: u16) -> (changed: bool)
        requires
            old(self).wf(),
        ensures
            final(self).wf(),
            changed == (old(self).rows != min_rows(rows as int) || old(self).cols != min_cols(cols as int)),
            final(self).rows == min_rows(rows as int),
            final(self).cols == min_cols(cols as int),
            final(self).title == old(self).title,
            final(self).alive == old(self).alive,
    {
        let rows = if rows < 2 { 2 } else { rows };
        let cols = if cols < 10 { 10 } else { cols };
        if self.rows == rows && self.cols == cols {
            return false;
        }
        self.rows = rows;
        self.cols = cols;
        parser_set_size(&mut self.parser, rows, cols);
        true
    }

    /// Takes in what the shell sent: output goes to the screen; the end of
    /// the output marks the terminal as exited.
    pub fn accept(&mut self, ev: PtyEvent)
        requires
            old(self).wf(),
        ensures
            final(self).wf(),
            final(self).rows == old(self).rows,
            final(self).cols == old(self).cols,
            final(self).title == old(self).title,
            final(self).alive == (old(self).alive && !(ev is Exit)),
    {
        match ev {
            PtyEvent::Output(bytes) => parser_process(&mut self.parser, bytes.as_slice()),
            PtyEvent::Exit => {
                self.alive = false;
            },
        }
    }
}

/// The UTF-8 encoding of `c`.
pub open spec fn utf8_encode(c: char) -> Seq<u8> {
    let v = c as u32;
    if v < 0x80 {
        seq![v as u8]
    } else if v < 0x800 {
        seq![(0xC0 | (v >> 6)) as u8, (0x80 | (v & 0x3F)) as u8]
    } else if v < 0x10000 {
        seq![(0xE0 | (v >> 12)) as u8, (0x80 | ((v >> 6) & 0x3F)) as u8, (0x80 | (v & 0x3F)) as u8]
    } else {
        seq![
            (0xF0 | (v >> 18)) as u8,
            (0x80 | ((v >> 12) & 0x3F)) as u8,
            (0x80 | ((v >> 6) & 0x3F)) as u8,
            (0x80 | (v & 0x3F)) as u8,
        ]
    }
}

/// The bytes that typing `c` sends.
pub fn char_bytes(c: char) -> (r: Vec<u8>)
    ensures
        r@ == utf8_encode(c),
{
    let v = c as u32;
    if v < 0x80 {
        vec![v as u8]
    } else if v < 0x800 {
        vec![(0xC0 | (v >> 6)) as u8, (0x80 | (v & 0x3F)) as u8]
    } else if v < 0x10000 {
        vec![(0xE0 | (v >> 12)) as u8, (0x80 | ((v >> 6) & 0x3F)) as u8, (0x80 | (v & 0x3F)) as u8]
    } else {
        vec![
            (0xF0 | (v >> 18)) as u8,
            (0x80 | ((v >> 12) & 0x3F)) as u8,
            (0x80 | ((v >> 6) & 0x3F)) as u8,
            (0x80 | (v & 0x3F)) as u8,
        ]
    }
}

} // verus!
