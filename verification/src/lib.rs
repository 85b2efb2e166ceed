//! A buffered, cell-addressed terminal drawing surface.
//!
//! Callers describe the screen they want as a grid of styled cells — directly
//! or through the builders — and `TermBuf::flush` reconciles the terminal
//! with that grid, emitting escapes only for the rows that changed.

pub mod builder;

mod color;
mod render;
mod sink;
mod style;
mod termio;

pub use color::Color;
pub use render::Directive;
pub use style::Style;

use vstd::prelude::*;

verus! {

pub use crate::termio::char_width;

/// The two ways this library fails: the terminal could not be acquired or
/// measured, or a write to it failed mid-flush.
#[derive(Debug, Clone, Copy, PartialEq, Eq, Structural)]
pub enum TermError {
    InitializationFailure,
    WriteFailure,
}

/// The size of the terminal, in cells.
#[derive(Debug, Clone, Copy, PartialEq, Eq, Structural)]
pub struct TermSize {
    /// Width in cells.
    pub width: usize,
    /// Height in cells.
    pub height: usize,
}

/// The column width a character takes on screen: what the width oracle
/// reports, with zero-width results coerced to one column.
pub open spec fn display_width_of(c: char) -> usize {
    if char_width(c) == 0 {
        1
    } else {
        char_width(c)
    }
}

/// Returns the display width of a character, substituting 1 for zero-width
/// characters.
pub fn display_width(ch: char) -> (r: usize)
    ensures
        r == display_width_of(ch),
        r >= 1,
{
    let w = crate::termio::unicode_char_width(ch);
    if w == 0 {
        1
    } else {
        w
    }
}

/// A single cell of the terminal: one glyph and its colors and attributes.
///
/// `width` caches the glyph's display width; the constructors and builders
/// always set it to `display_width_of(content)`, so it is at least 1.
#[derive(Debug, Clone, Copy, PartialEq, Eq, Structural)]
pub struct TermCell {
    /// Character content of the cell.
    pub content: char,
    /// The foreground color of the cell, if any.
    pub fg: Option<Color>,
    /// The background color of the cell, if any.
    pub bg: Option<Color>,
    /// All the styles of the cell, if any.
    pub style: Option<Style>,
    /// The cached display width of `content`.
    pub width: usize,
}

/// The empty cell: an unstyled space, one column wide.
pub open spec fn empty_cell() -> TermCell {
    TermCell { content: ' ', fg: None, bg: None, style: None, width: 1 }
}

/// The cell a builder commits for glyph `ch` under the given colors and
/// attributes, its width freshly derived from the glyph.
pub open spec fn styled_cell(
    ch: char,
    fg: Option<Color>,
    bg: Option<Color>,
    style: Option<Style>,
) -> TermCell {
    TermCell { content: ch, fg, bg, style, width: display_width_of(ch) }
}

impl TermCell {
    /// Creates a new empty cell.
    pub fn empty() -> (r: TermCell)
        ensures
            r == empty_cell(),
    {
        TermCell { content: ' ', fg: None, bg: None, style: None, width: 1 }
    }

    /// Creates an unstyled cell with a given char.
    pub fn with_char(ch: char) -> (r: TermCell)
        ensures
            r == styled_cell(ch, None, None, None),
    {
        let width = display_width(ch);
        TermCell { content: ch, fg: None, bg: None, style: None, width }
    }
}

/// Gets the size of the terminal.
pub fn size() -> (r: Result<TermSize, TermError>)
    ensures
        r matches Ok(s) ==> s.width <= u16::MAX && s.height <= u16::MAX,
        r matches Err(e) ==> e == TermError::InitializationFailure,
{
    match crate::termio::query_size() {
        Ok(wh) => Ok(TermSize { width: wh.0 as usize, height: wh.1 as usize }),
        Err(e) => Err(e),
    }
}

/// A row of `w` copies of one cell.
fn make_row_of(w: usize, cell: TermCell) -> (r: Vec<TermCell>)
    ensures
        r@.len() == w,
        forall|i: int| 0 <= i < w ==> r@[i] == cell,
{
    let mut v: Vec<TermCell> = Vec::new();
    let mut i: usize = 0;
    while i < w
        invariant
            i <= w,
            v@.len() == i,
            forall|k: int| 0 <= k < i ==> v@[k] == cell,
        decreases w - i,
    {
        v.push(cell);
        i = i + 1;
    }
    v
}

/// A row of `w` empty cells.
fn make_row(w: usize) -> (r: Vec<TermCell>)
    ensures
        r@.len() == w,
        forall|i: int| 0 <= i < w ==> r@[i] == empty_cell(),
{
    make_row_of(w, TermCell::empty())
}

/// A grid of `h` rows of `w` empty cells each.
fn make_grid(w: usize, h: usize) -> (g: Vec<Vec<TermCell>>)
    ensures
        g@.len() == h,
        forall|y: int| 0 <= y < h ==> (#[trigger] g@[y])@.len() == w,
        forall|y: int, x: int|
            #![trigger g@[y]@[x]]
            0 <= y < h && 0 <= x < w ==> g@[y]@[x] == empty_cell(),
{
    let mut g: Vec<Vec<TermCell>> = Vec::new();
    let mut y: usize = 0;
    while y < h
        invariant
            y <= h,
            g@.len() == y,
            forall|k: int| 0 <= k < y ==> (#[trigger] g@[k])@.len() == w,
            forall|k: int, x: int|
                #![trigger g@[k]@[x]]
                0 <= k < y && 0 <= x < w ==> g@[k]@[x] == empty_cell(),
        decreases h - y,
    {
        g.push(make_row(w));
        y = y + 1;
    }
    g
}

/// A buffered terminal interface, using a cell-based api.
///
/// The buffer holds the frame being composed; the snapshot holds the frame
/// as last flushed. `flush` diffs the two and emits directives through the
/// sink — to the live terminal, or to a recording when the buffer was made
/// with [`TermBuf::recording`].
pub struct TermBuf {
    pub(crate) sink: sink::TermSink,
    pub(crate) cursor: bool,
    pub(crate) cursor_pos: (usize, usize),
    pub(crate) buffer: Vec<Vec<TermCell>>,
    pub(crate) prev_buffer: Vec<Vec<TermCell>>,
}

impl TermBuf {
    /// The frame being composed, row by row.
    pub closed spec fn grid(self) -> Seq<Seq<TermCell>> {
        self.buffer@.map_values(|r: Vec<TermCell>| r@)
    }

    /// The snapshot of the frame as last flushed.
    pub closed spec fn snap(self) -> Seq<Seq<TermCell>> {
        self.prev_buffer@.map_values(|r: Vec<TermCell>| r@)
    }

    /// Every directive emitted through this buffer's sink so far.
    pub closed spec fn out(self) -> Seq<Directive> {
        self.sink.out()
    }

    /// Whether this buffer records directives instead of writing a terminal.
    pub closed spec fn is_record(self) -> bool {
        self.sink.is_record()
    }

    /// Whether the cursor is to be shown.
    pub closed spec fn cursor_visible(self) -> bool {
        self.cursor
    }

    /// The stored cursor position, one-based.
    pub closed spec fn cursor_position(self) -> (usize, usize) {
        self.cursor_pos
    }

    /// The sink's own well-formedness.
    pub closed spec fn sink_wf(self) -> bool {
        self.sink.wf()
    }

    /// The number of rows.
    pub open spec fn height(self) -> nat {
        self.grid().len()
    }

    /// The common length of the rows.
    pub open spec fn width(self) -> nat {
        if self.grid().len() > 0 {
            self.grid()[0].len()
        } else {
            0
        }
    }

    /// Shape of a healthy buffer: grid and snapshot have the same number of
    /// rows, every row has the common width, and the sink is sound.
    pub open spec fn wf(self) -> bool {
        &&& self.snap().len() == self.grid().len()
        &&& forall|y: int|
            0 <= y < self.grid().len() ==> (#[trigger] self.grid()[y]).len() == self.width()
        &&& forall|y: int|
            0 <= y < self.snap().len() ==> (#[trigger] self.snap()[y]).len() == self.width()
        &&& self.sink_wf()
    }

    /// Whether `(x, y)` addresses a cell of the grid.
    pub open spec fn in_bounds(self, x: int, y: int) -> bool {
        0 <= y < self.grid().len() && 0 <= x < self.grid()[y].len()
    }

    /// Creates a new TermBuf on the live terminal: switches to raw mode and
    /// to the alternate screen, sized to the terminal's current dimensions,
    /// with both frames empty and the cursor shown at the origin. Fails —
    /// with `InitializationFailure`, never a panic — when the terminal
    /// cannot be acquired or measured.
    pub fn init() -> (r: Result<TermBuf, TermError>)
        ensures
            r matches Ok(b) ==> {
                &&& b.wf()
                &&& !b.is_record()
                &&& b.cursor_visible()
                &&& b.cursor_position() == (1usize, 1usize)
                &&& b.out() == Seq::<Directive>::empty()
                &&& b.snap() == b.grid()
                &&& forall|y: int, x: int| b.in_bounds(x, y) ==> b.grid()[y][x] == empty_cell()
            },
            r matches Err(e) ==> e == TermError::InitializationFailure,
    {
        let size = match size() {
            Ok(s) => s,
            Err(e) => {
                return Err(e);
            },
        };
        let term = match termio::open_terminal() {
            Ok(t) => t,
            Err(e) => {
                return Err(e);
            },
        };
        let buf = TermBuf {
            sink: sink::TermSink::terminal(term),
            cursor: true,
            cursor_pos: (1, 1),
            buffer: make_grid(size.width, size.height),
            prev_buffer: make_grid(size.width, size.height),
        };
        proof {
            assert(buf.snap() =~~= buf.grid());
        }
        Ok(buf)
    }

    /// Creates a TermBuf of the given size whose I/O provider is a test
    /// double: every directive a flush would send to the terminal is
    /// recorded instead, and can be read back with [`TermBuf::recorded`].
    pub fn recording(size: TermSize) -> (b: TermBuf)
        ensures
            b.wf(),
            b.is_record(),
            b.cursor_visible(),
            b.cursor_position() == (1usize, 1usize),
            b.out() == Seq::<Directive>::empty(),
            b.height() == size.height,
            b.grid().len() == size.height,
            forall|y: int| 0 <= y < size.height ==> (#[trigger] b.grid()[y]).len() == size.width,
            b.snap() == b.grid(),
            forall|y: int, x: int| b.in_bounds(x, y) ==> b.grid()[y][x] == empty_cell(),
    {
        let buf = TermBuf {
            sink: sink::TermSink::record(),
            cursor: true,
            cursor_pos: (1, 1),
            buffer: make_grid(size.width, size.height),
            prev_buffer: make_grid(size.width, size.height),
        };
        proof {
            assert(buf.snap() =~~= buf.grid());
        }
        buf
    }

    /// Reads the cell at `(x, y)`, or `None` when the position is out of
    /// bounds.
    pub fn get(&self, x: usize, y: usize) -> (r: Option<TermCell>)
        ensures
            self.in_bounds(x as int, y as int) ==> r == Some(self.grid()[y as int][x as int]),
            !self.in_bounds(x as int, y as int) ==> r is None,
    {
        if y < self.buffer.len() {
            let row_len = self.buffer[y].len();
            if x < row_len {
                return Some(self.buffer[y][x]);
            }
        }
        None
    }

    /// Reads the snapshot cell at `(x, y)`, or `None` when the position is
    /// out of bounds: what was last flushed there.
    pub fn get_prev(&self, x: usize, y: usize) -> (r: Option<TermCell>)
        ensures
            y < self.snap().len() && x < self.snap()[y as int].len() ==> r == Some(
                self.snap()[y as int][x as int],
            ),
            !(y < self.snap().len() && x < self.snap()[y as int].len()) ==> r is None,
    {
        if y < self.prev_buffer.len() {
            let row_len = self.prev_buffer[y].len();
            if x < row_len {
                return Some(self.prev_buffer[y][x]);
            }
        }
        None
    }

    /// The directives recorded so far, when this buffer was built with
    /// [`TermBuf::recording`]; `None` on a live terminal.
    pub fn recorded(&self) -> (r: Option<&Vec<Directive>>)
        requires
            self.wf(),
        ensures
            match r {
                Some(v) => self.is_record() && v@ == self.out(),
                None => !self.is_record(),
            },
    {
        self.sink.recorded()
    }

    /// Writes a single cell; out-of-bounds positions are silently dropped.
    pub fn set_cell(&mut self, x: usize, y: usize, cell: TermCell)
        ensures
            final(self).grid() == render::grid_set(old(self).grid(), x as int, y as int, cell),
            final(self).snap() == old(self).snap(),
            final(self).out() == old(self).out(),
            final(self).is_record() == old(self).is_record(),
            final(self).cursor_visible() == old(self).cursor_visible(),
            final(self).cursor_position() == old(self).cursor_position(),
            old(self).wf() ==> final(self).wf(),
    {
        let ghost g0 = self.grid();
        if y < self.buffer.len() {
            let row_len = self.buffer[y].len();
            if x < row_len {
                self.buffer[y].set(x, cell);
                proof {
                    assert(final(self).grid() =~~= render::grid_set(
                        g0,
                        x as int,
                        y as int,
                        cell,
                    ));
                }
            }
        }
    }

    /// Writes a single char, unstyled; out-of-bounds positions are silently
    /// dropped.
    pub fn set_char(&mut self, x: usize, y: usize, ch: char)
        ensures
            final(self).grid() == render::grid_set(
                old(self).grid(),
                x as int,
                y as int,
                styled_cell(ch, None, None, None),
            ),
            final(self).snap() == old(self).snap(),
            final(self).out() == old(self).out(),
            final(self).is_record() == old(self).is_record(),
            final(self).cursor_visible() == old(self).cursor_visible(),
            final(self).cursor_position() == old(self).cursor_position(),
            old(self).wf() ==> final(self).wf(),
    {
        let cell = TermCell::with_char(ch);
        self.set_cell(x, y, cell);
    }

    /// Replaces the foreground of the cell at `(x, y)`; a no-op out of
    /// bounds.
    pub fn set_cell_fg(&mut self, x: usize, y: usize, fg: Color)
        ensures
            old(self).in_bounds(x as int, y as int) ==> final(self).grid() == render::grid_set(
                old(self).grid(),
                x as int,
                y as int,
                (TermCell { fg: Some(fg), ..old(self).grid()[y as int][x as int] }),
            ),
            !old(self).in_bounds(x as int, y as int) ==> final(self).grid() == old(self).grid(),
            final(self).snap() == old(self).snap(),
            final(self).out() == old(self).out(),
            final(self).is_record() == old(self).is_record(),
            final(self).cursor_visible() == old(self).cursor_visible(),
            final(self).cursor_position() == old(self).cursor_position(),
            old(self).wf() ==> final(self).wf(),
    {
        if y < self.buffer.len() {
            let row_len = self.buffer[y].len();
            if x < row_len {
                let mut cell = self.buffer[y][x];
                cell.fg = Some(fg);
                self.set_cell(x, y, cell);
            }
        }
    }

    /// Replaces the background of the cell at `(x, y)`; a no-op out of
    /// bounds.
    pub fn set_cell_bg(&mut self, x: usize, y: usize, bg: Color)
        ensures
            old(self).in_bounds(x as int, y as int) ==> final(self).grid() == render::grid_set(
                old(self).grid(),
                x as int,
                y as int,
                (TermCell { bg: Some(bg), ..old(self).grid()[y as int][x as int] }),
            ),
            !old(self).in_bounds(x as int, y as int) ==> final(self).grid() == old(self).grid(),
            final(self).snap() == old(self).snap(),
            final(self).out() == old(self).out(),
            final(self).is_record() == old(self).is_record(),
            final(self).cursor_visible() == old(self).cursor_visible(),
            final(self).cursor_position() == old(self).cursor_position(),
            old(self).wf() ==> final(self).wf(),
    {
        if y < self.buffer.len() {
            let row_len = self.buffer[y].len();
            if x < row_len {
                let mut cell = self.buffer[y][x];
                cell.bg = Some(bg);
                self.set_cell(x, y, cell);
            }
        }
    }

    /// Replaces the style of the cell at `(x, y)`; a no-op out of bounds.
    pub fn set_cell_style(&mut self, x: usize, y: usize, style: Style)
        ensures
            old(self).in_bounds(x as int, y as int) ==> final(self).grid() == render::grid_set(
                old(self).grid(),
                x as int,
                y as int,
                (TermCell { style: Some(style), ..old(self).grid()[y as int][x as int] }),
            ),
            !old(self).in_bounds(x as int, y as int) ==> final(self).grid() == old(self).grid(),
            final(self).snap() == old(self).snap(),
            final(self).out() == old(self).out(),
            final(self).is_record() == old(self).is_record(),
            final(self).cursor_visible() == old(self).cursor_visible(),
            final(self).cursor_position() == old(self).cursor_position(),
            old(self).wf() ==> final(self).wf(),
    {
        if y < self.buffer.len() {
            let row_len = self.buffer[y].len();
            if x < row_len {
                let mut cell = self.buffer[y][x];
                cell.style = Some(style);
                self.set_cell(x, y, cell);
            }
        }
    }

    /// Sets cursor position, in one-based coordinates. Takes effect at the
    /// next flush.
    pub fn set_cursor_position(&mut self, x: usize, y: usize)
        ensures
            final(self).cursor_position() == (x, y),
            final(self).grid() == old(self).grid(),
            final(self).snap() == old(self).snap(),
            final(self).out() == old(self).out(),
            final(self).is_record() == old(self).is_record(),
            final(self).cursor_visible() == old(self).cursor_visible(),
            old(self).wf() ==> final(self).wf(),
    {
        self.cursor_pos = (x, y);
    }

    /// Resets every cell of the frame being composed to `cell`; the
    /// snapshot, cursor and sink are untouched.
    pub fn fill(&mut self, cell: TermCell)
        ensures
            final(self).grid().len() == old(self).grid().len(),
            forall|y: int|
                0 <= y < old(self).grid().len() ==> (#[trigger] final(self).grid()[y]).len()
                    == old(self).grid()[y].len(),
            forall|y: int, x: int|
                old(self).in_bounds(x, y) ==> final(self).grid()[y][x] == cell,
            final(self).snap() == old(self).snap(),
            final(self).out() == old(self).out(),
            final(self).is_record() == old(self).is_record(),
            final(self).cursor_visible() == old(self).cursor_visible(),
            final(self).cursor_position() == old(self).cursor_position(),
            old(self).wf() ==> final(self).wf(),
    {
        let ghost g0 = self.grid();
        let mut y: usize = 0;
        let rows = self.buffer.len();
        while y < rows
            invariant
                y <= rows,
                rows == self.buffer@.len(),
                self.grid().len() == g0.len(),
                rows == g0.len(),
                forall|k: int|
                    0 <= k < g0.len() ==> (#[trigger] self.grid()[k]).len() == g0[k].len(),
                forall|k: int, x: int|
                    #![trigger self.grid()[k][x]]
                    0 <= k < y && 0 <= x < g0[k].len() ==> self.grid()[k][x] == cell,
                forall|k: int| y <= k < g0.len() ==> #[trigger] self.grid()[k] == g0[k],
                self.snap() == old(self).snap(),
                self.sink == old(self).sink,
                self.cursor == old(self).cursor,
                self.cursor_pos == old(self).cursor_pos,
            decreases rows - y,
        {
            let row_len = self.buffer[y].len();
            proof {
                assert(self.grid()[y as int] == self.buffer@[y as int]@);
                assert(row_len == self.grid()[y as int].len());
                assert(row_len == g0[y as int].len());
            }
            let filled = make_row_of(row_len, cell);
            let ghost bview = filled@;
            let ghost gpre = self.grid();
            self.buffer.set(y, filled);
            proof {
                assert(self.grid() =~~= gpre.update(y as int, bview));
                assert forall|k: int|
                    0 <= k < g0.len() implies (#[trigger] self.grid()[k]).len()
                    == g0[k].len() by {}
                assert forall|k: int, x: int|
                    #![trigger self.grid()[k][x]]
                    0 <= k < y + 1 && 0 <= x < g0[k].len() implies self.grid()[k][x] == cell by {
                    if k < y {
                        assert(gpre[k][x] == cell);
                    } else {
                        assert(self.grid()[k] == bview);
                    }
                }
            }
            y = y + 1;
        }
    }

    /// Empties the frame being composed. The snapshot is left alone, so the
    /// next flush diffs against what is actually on screen and erases it.
    pub fn clear(&mut self) -> (r: Result<(), TermError>)
        ensures
            r is Ok,
            final(self).grid().len() == old(self).grid().len(),
            forall|y: int|
                0 <= y < old(self).grid().len() ==> (#[trigger] final(self).grid()[y]).len()
                    == old(self).grid()[y].len(),
            forall|y: int, x: int|
                old(self).in_bounds(x, y) ==> final(self).grid()[y][x] == empty_cell(),
            final(self).snap() == old(self).snap(),
            final(self).out() == old(self).out(),
            final(self).is_record() == old(self).is_record(),
            final(self).cursor_visible() == old(self).cursor_visible(),
            final(self).cursor_position() == old(self).cursor_position(),
            old(self).wf() ==> final(self).wf(),
    {
        let blank = TermCell::empty();
        self.fill(blank);
        Ok(())
    }

    /// Replaces both frames with empty ones of the given size; prior
    /// content is discarded.
    pub fn resize(&mut self, size: TermSize)
        ensures
            old(self).wf() ==> final(self).wf(),
            final(self).grid() == render::empty_grid(size.width as nat, size.height as nat),
            final(self).snap() == final(self).grid(),
            final(self).out() == old(self).out(),
            final(self).is_record() == old(self).is_record(),
            final(self).cursor_visible() == old(self).cursor_visible(),
            final(self).cursor_position() == old(self).cursor_position(),
    {
        self.buffer = make_grid(size.width, size.height);
        self.prev_buffer = make_grid(size.width, size.height);
        proof {
            assert(final(self).grid() =~~= render::empty_grid(
                size.width as nat,
                size.height as nat,
            ));
            assert(final(self).snap() =~~= final(self).grid());
        }
    }

    /// Resizes the internal buffers to the terminal's current size,
    /// discarding their content; call when the terminal has changed size.
    pub fn update_size(&mut self) -> (r: Result<(), TermError>)
        ensures
            r is Ok ==> {
                &&& old(self).wf() ==> final(self).wf()
                &&& final(self).snap() == final(self).grid()
                &&& forall|y: int, x: int|
                    final(self).in_bounds(x, y) ==> final(self).grid()[y][x] == empty_cell()
            },
            r is Err ==> *final(self) == *old(self),
            r matches Err(e) ==> e == TermError::InitializationFailure,
            final(self).out() == old(self).out(),
            final(self).is_record() == old(self).is_record(),
            final(self).cursor_visible() == old(self).cursor_visible(),
            final(self).cursor_position() == old(self).cursor_position(),
    {
        let new_size = match size() {
            Ok(s) => s,
            Err(e) => {
                return Err(e);
            },
        };
        self.resize(new_size);
        Ok(())
    }

    /// Gets size of the terminal.
    pub fn size(&self) -> (r: Result<TermSize, TermError>)
        ensures
            r matches Ok(s) ==> s.width <= u16::MAX && s.height <= u16::MAX,
            r matches Err(e) ==> e == TermError::InitializationFailure,
    {
        size()
    }

    /// Writes a run of characters on row `y` starting at column `x`, one
    /// styled cell per character, advancing by each character's display
    /// width. Out-of-bounds positions are silently dropped.
    pub(crate) fn write_text_run(
        &mut self,
        x: usize,
        y: usize,
        chars: &Vec<char>,
        fg: Option<Color>,
        bg: Option<Color>,
        style: Option<Style>,
    )
        ensures
            final(self).grid() == render::write_run(
                old(self).grid(),
                x as int,
                y as int,
                chars@,
                fg,
                bg,
                style,
            ),
            final(self).snap() == old(self).snap(),
            final(self).out() == old(self).out(),
            final(self).is_record() == old(self).is_record(),
            final(self).cursor_visible() == old(self).cursor_visible(),
            final(self).cursor_position() == old(self).cursor_position(),
            old(self).wf() ==> final(self).wf(),
    {
        let ghost g0 = self.grid();
        let ghost target = render::write_run(g0, x as int, y as int, chars@, fg, bg, style);
        let n = chars.len();
        let mut i: usize = 0;
        let mut col: usize = x;
        let mut done = false;
        proof {
            assert(chars@.skip(0) =~= chars@);
        }
        while i < n && !done
            invariant
                i <= n,
                n == chars@.len(),
                self.snap() == old(self).snap(),
                self.out() == old(self).out(),
                self.is_record() == old(self).is_record(),
                self.cursor_visible() == old(self).cursor_visible(),
                self.cursor_position() == old(self).cursor_position(),
                old(self).wf() ==> self.wf(),
                !done ==> render::write_run(
                    self.grid(),
                    col as int,
                    y as int,
                    chars@.skip(i as int),
                    fg,
                    bg,
                    style,
                ) == target,
                done ==> self.grid() == target,
            decreases n - i,
        {
            let ch = chars[i];
            let w = display_width(ch);
            let cell = TermCell {
                content: ch,
                fg,
                bg,
                style,
                width: w,
            };
            let ghost gpre = self.grid();
            self.set_cell(col, y, cell);
            proof {
                assert(cell == styled_cell(ch, fg, bg, style));
                assert(chars@.skip(i as int)[0] == ch);
                assert(chars@.skip(i as int).drop_first() =~= chars@.skip(i as int + 1));
                assert(render::write_run(
                    gpre,
                    col as int,
                    y as int,
                    chars@.skip(i as int),
                    fg,
                    bg,
                    style,
                ) == render::write_run(
                    self.grid(),
                    col as int + w as int,
                    y as int,
                    chars@.skip(i as int + 1),
                    fg,
                    bg,
                    style,
                ));
            }
            i = i + 1;
            match col.checked_add(w) {
                Some(nc) => {
                    col = nc;
                },
                None => {
                    // The true column is past `usize::MAX`, so it is past the
                    // end of every representable row: the rest of the run
                    // lands nowhere.
                    if y < self.buffer.len() {
                        let row_len = self.buffer[y].len();
                        proof {
                            assert(self.grid()[y as int] == self.buffer@[y as int]@);
                            assert(self.grid()[y as int].len() == row_len);
                            render::lemma_write_run_oob(
                                self.grid(),
                                col as int + w as int,
                                y as int,
                                chars@.skip(i as int),
                                fg,
                                bg,
                                style,
                            );
                        }
                    } else {
                        proof {
                            render::lemma_write_run_oob(
                                self.grid(),
                                col as int + w as int,
                                y as int,
                                chars@.skip(i as int),
                                fg,
                                bg,
                                style,
                            );
                        }
                    }
                    done = true;
                },
            }
        }
        proof {
            if !done {
                assert(chars@.skip(n as int) =~= Seq::<char>::empty());
            }
        }
    }

    /// Writes an entire string, unstyled, advancing by display width.
    pub fn print(&mut self, x: usize, y: usize, s: &str)
        ensures
            final(self).grid() == render::write_run(
                old(self).grid(),
                x as int,
                y as int,
                s@,
                None,
                None,
                None,
            ),
            final(self).snap() == old(self).snap(),
            final(self).out() == old(self).out(),
            final(self).is_record() == old(self).is_record(),
            final(self).cursor_visible() == old(self).cursor_visible(),
            final(self).cursor_position() == old(self).cursor_position(),
            old(self).wf() ==> final(self).wf(),
    {
        let cs = str_chars(s);
        self.write_text_run(x, y, &cs, None, None, None);
    }

    /// Paints `c` into row `y` at the columns `[x, x + len)` that exist; the
    /// rest of the grid is untouched.
    pub(crate) fn fill_row_span(&mut self, x: usize, y: usize, len: usize, c: TermCell)
        ensures
            final(self).grid() == render::paint_row_span(
                old(self).grid(),
                y as int,
                x as int,
                x as int + len as int,
                c,
            ),
            final(self).snap() == old(self).snap(),
            final(self).out() == old(self).out(),
            final(self).is_record() == old(self).is_record(),
            final(self).cursor_visible() == old(self).cursor_visible(),
            final(self).cursor_position() == old(self).cursor_position(),
            old(self).wf() ==> final(self).wf(),
    {
        let ghost g0 = self.grid();
        let ghost target = render::paint_row_span(g0, y as int, x as int, x as int + len as int, c);
        if y >= self.buffer.len() {
            proof {
                assert(self.grid() =~~= target);
            }
            return ;
        }
        let row_len = self.buffer[y].len();
        proof {
            assert(self.grid()[y as int] == self.buffer@[y as int]@);
            assert(self.grid()[y as int].len() == row_len);
        }
        let mut k: usize = 0;
        let mut done = false;
        proof {
            assert(render::paint_row_span(g0, y as int, x as int, x as int, c) =~~= g0);
        }
        while k < len && !done
            invariant
                k <= len,
                self.snap() == old(self).snap(),
                self.out() == old(self).out(),
                self.is_record() == old(self).is_record(),
                self.cursor_visible() == old(self).cursor_visible(),
                self.cursor_position() == old(self).cursor_position(),
                old(self).wf() ==> self.wf(),
                row_len == g0[y as int].len(),
                y < g0.len(),
                g0 == old(self).grid(),
                target == render::paint_row_span(
                    g0,
                    y as int,
                    x as int,
                    x as int + len as int,
                    c,
                ),
                !done ==> self.grid() == render::paint_row_span(
                    g0,
                    y as int,
                    x as int,
                    x as int + k as int,
                    c,
                ),
                done ==> self.grid() == target,
            decreases len - k,
        {
            let ghost gpre = self.grid();
            match x.checked_add(k) {
                Some(pos) => {
                    self.set_cell(pos, y, c);
                    proof {
                        assert(self.grid() =~~= render::paint_row_span(
                            g0,
                            y as int,
                            x as int,
                            x as int + k as int + 1,
                            c,
                        ));
                    }
                },
                None => {
                    // Columns from `x + k` on are past `usize::MAX`, hence
                    // past the end of the row: nothing more can land.
                    proof {
                        assert(self.grid() =~~= target);
                    }
                    done = true;
                },
            }
            k = k + 1;
        }
    }

    /// Paints `c` into column `x` at the rows `[y, y + len)` that exist; the
    /// rest of the grid is untouched.
    pub(crate) fn fill_col_span(&mut self, x: usize, y: usize, len: usize, c: TermCell)
        ensures
            final(self).grid() == render::paint_col_span(
                old(self).grid(),
                x as int,
                y as int,
                y as int + len as int,
                c,
            ),
            final(self).snap() == old(self).snap(),
            final(self).out() == old(self).out(),
            final(self).is_record() == old(self).is_record(),
            final(self).cursor_visible() == old(self).cursor_visible(),
            final(self).cursor_position() == old(self).cursor_position(),
            old(self).wf() ==> final(self).wf(),
    {
        let ghost g0 = self.grid();
        let ghost target = render::paint_col_span(g0, x as int, y as int, y as int + len as int, c);
        let rows = self.buffer.len();
        proof {
            assert(self.grid().len() == rows);
        }
        let mut k: usize = 0;
        let mut done = false;
        proof {
            assert(render::paint_col_span(g0, x as int, y as int, y as int, c) =~~= g0);
        }
        while k < len && !done
            invariant
                k <= len,
                self.snap() == old(self).snap(),
                self.out() == old(self).out(),
                self.is_record() == old(self).is_record(),
                self.cursor_visible() == old(self).cursor_visible(),
                self.cursor_position() == old(self).cursor_position(),
                old(self).wf() ==> self.wf(),
                rows == g0.len(),
                g0 == old(self).grid(),
                target == render::paint_col_span(
                    g0,
                    x as int,
                    y as int,
                    y as int + len as int,
                    c,
                ),
                !done ==> self.grid() == render::paint_col_span(
                    g0,
                    x as int,
                    y as int,
                    y as int + k as int,
                    c,
                ),
                done ==> self.grid() == target,
            decreases len - k,
        {
            match y.checked_add(k) {
                Some(row) => {
                    self.set_cell(x, row, c);
                    proof {
                        assert(self.grid() =~~= render::paint_col_span(
                            g0,
                            x as int,
                            y as int,
                            y as int + k as int + 1,
                            c,
                        ));
                    }
                },
                None => {
                    // Rows from `y + k` on are past `usize::MAX`, hence past
                    // the last row of the grid: nothing more can land.
                    proof {
                        assert(self.grid() =~~= target);
                    }
                    done = true;
                },
            }
            k = k + 1;
        }
    }

    /// Draws a simple (unstyled) unicode vertical line of `len` cells
    /// downward from `(x, y)`.
    pub fn draw_vertical_line(&mut self, x: usize, y: usize, len: usize)
        ensures
            final(self).grid() == render::paint_col_span(
                old(self).grid(),
                x as int,
                y as int,
                y as int + len as int,
                styled_cell('│', None, None, None),
            ),
            final(self).snap() == old(self).snap(),
            final(self).out() == old(self).out(),
            final(self).is_record() == old(self).is_record(),
            final(self).cursor_visible() == old(self).cursor_visible(),
            final(self).cursor_position() == old(self).cursor_position(),
            old(self).wf() ==> final(self).wf(),
    {
        let c = TermCell::with_char('│');
        self.fill_col_span(x, y, len, c);
    }

    /// Draws a simple (unstyled) unicode horizontal line of `len` cells
    /// rightward from `(x, y)`.
    pub fn draw_horiztonal_line(&mut self, x: usize, y: usize, len: usize)
        ensures
            final(self).grid() == render::paint_row_span(
                old(self).grid(),
                y as int,
                x as int,
                x as int + len as int,
                styled_cell('─', None, None, None),
            ),
            final(self).snap() == old(self).snap(),
            final(self).out() == old(self).out(),
            final(self).is_record() == old(self).is_record(),
            final(self).cursor_visible() == old(self).cursor_visible(),
            final(self).cursor_position() == old(self).cursor_position(),
            old(self).wf() ==> final(self).wf(),
    {
        let c = TermCell::with_char('─');
        self.fill_row_span(x, y, len, c);
    }

    /// Draws a box outline with the given accumulated style: four corners,
    /// horizontal edges on the top and bottom rows, vertical edges on the
    /// left and right columns, the interior untouched.
    #[verifier::rlimit(60)]
    pub(crate) fn paint_box_cells(
        &mut self,
        x: usize,
        y: usize,
        w: usize,
        h: usize,
        fg: Option<Color>,
        bg: Option<Color>,
        style: Option<Style>,
    )
        ensures
            final(self).grid() == render::paint_box(
                old(self).grid(),
                x as int,
                y as int,
                w as int,
                h as int,
                fg,
                bg,
                style,
            ),
            final(self).snap() == old(self).snap(),
            final(self).out() == old(self).out(),
            final(self).is_record() == old(self).is_record(),
            final(self).cursor_visible() == old(self).cursor_visible(),
            final(self).cursor_position() == old(self).cursor_position(),
            old(self).wf() ==> final(self).wf(),
    {
        let ghost g0 = self.grid();
        let ghost xi = x as int;
        let ghost yi = y as int;
        let ghost x2i = xi + w + 1;
        let ghost y2i = yi + h + 1;
        let ghost target = render::paint_box(g0, xi, yi, w as int, h as int, fg, bg, style);
        let top_left = build_glyph('┌', fg, bg, style);
        let top_right = build_glyph('┐', fg, bg, style);
        let bottom_left = build_glyph('└', fg, bg, style);
        let bottom_right = build_glyph('┘', fg, bg, style);
        let horizontal = build_glyph('─', fg, bg, style);
        let vertical = build_glyph('│', fg, bg, style);
        let x1 = x.checked_add(1);
        let y1 = y.checked_add(1);
        let x2 = match x.checked_add(w) {
            Some(v) => v.checked_add(1),
            None => None,
        };
        let y2 = match y.checked_add(h) {
            Some(v) => v.checked_add(1),
            None => None,
        };

        self.set_cell(x, y, top_left);
        let ghost g1 = self.grid();
        proof {
            assert(g1 == render::grid_set(g0, xi, yi, top_left));
        }

        if let Some(xx) = x2 {
            self.set_cell(xx, y, top_right);
        }
        let ghost g2 = self.grid();
        proof {
            lemma_rows_bounded(*self);
            assert(g2 == render::grid_set(g1, x2i, yi, top_right));
        }

        if let Some(yy) = y2 {
            self.set_cell(x, yy, bottom_left);
        }
        let ghost g3 = self.grid();
        proof {
            lemma_rows_bounded(*self);
            assert(g3 == render::grid_set(g2, xi, y2i, bottom_left));
        }

        if let Some(xx) = x2 {
            if let Some(yy) = y2 {
                self.set_cell(xx, yy, bottom_right);
            }
        }
        let ghost g4 = self.grid();
        proof {
            lemma_rows_bounded(*self);
            assert(g4 == render::grid_set(g3, x2i, y2i, bottom_right));
        }

        if let Some(xs) = x1 {
            self.fill_row_span(xs, y, w, horizontal);
        }
        let ghost g5 = self.grid();
        proof {
            lemma_rows_bounded(*self);
            if x1 is None {
                assert(render::paint_row_span(g4, yi, xi + 1, x2i, horizontal) =~~= g4);
            }
            assert(g5 == render::paint_row_span(g4, yi, xi + 1, x2i, horizontal));
        }

        if let Some(xs) = x1 {
            if let Some(yy) = y2 {
                self.fill_row_span(xs, yy, w, horizontal);
            }
        }
        let ghost g6 = self.grid();
        proof {
            lemma_rows_bounded(*self);
            if x1 is None || y2 is None {
                assert(render::paint_row_span(g5, y2i, xi + 1, x2i, horizontal) =~~= g5);
            }
            assert(g6 == render::paint_row_span(g5, y2i, xi + 1, x2i, horizontal));
        }

        if let Some(ys) = y1 {
            self.fill_col_span(x, ys, h, vertical);
        }
        let ghost g7 = self.grid();
        proof {
            lemma_rows_bounded(*self);
            if y1 is None {
                assert(render::paint_col_span(g6, xi, yi + 1, y2i, vertical) =~~= g6);
            }
            assert(g7 == render::paint_col_span(g6, xi, yi + 1, y2i, vertical));
        }

        if let Some(ys) = y1 {
            if let Some(xx) = x2 {
                self.fill_col_span(xx, ys, h, vertical);
            }
        }
        let ghost g8 = self.grid();
        proof {
            lemma_rows_bounded(*self);
            if y1 is None || x2 is None {
                assert(render::paint_col_span(g7, x2i, yi + 1, y2i, vertical) =~~= g7);
            }
            assert(g8 == render::paint_col_span(g7, x2i, yi + 1, y2i, vertical));

            assert forall|j: int| 0 <= j < g0.len() implies #[trigger] g8[j] =~= target[j] by {
                assert(g8[j].len() == g0[j].len());
                assert forall|i: int| 0 <= i < g0[j].len() implies #[trigger] g8[j][i]
                    == target[j][i] by {
                    assert(g0[j].len() <= usize::MAX);
                    if j == yi {
                        if i == xi {
                        } else if i == x2i {
                        } else if xi < i < x2i {
                        } else {
                        }
                    } else if j == y2i {
                        if i == xi {
                        } else if i == x2i {
                        } else if xi < i < x2i {
                        } else {
                        }
                    } else if yi < j < y2i {
                        if i == xi {
                        } else if i == x2i {
                        } else {
                        }
                    } else {
                    }
                }
            }
            assert(self.grid() =~~= target);
        }
    }

    /// Returns a builder that writes a single styled char at `(x, y)`.
    pub fn char_builder(&self, x: usize, y: usize, ch: char) -> (r: builder::StyleCellBuilder)
        ensures
            r.x == x,
            r.y == y,
            r.content@ == seq![ch],
            r.sty == (builder::StyleAccum { fg: None, bg: None, style: None }),
    {
        let mut content: Vec<char> = Vec::new();
        content.push(ch);
        proof {
            assert(content@ =~= seq![ch]);
        }
        builder::StyleCellBuilder { x, y, content, sty: builder::StyleAccum::new() }
    }

    /// Returns a builder that writes a styled string starting at `(x, y)`.
    pub fn string_builder(&self, x: usize, y: usize, s: &str) -> (r: builder::StyleCellBuilder)
        ensures
            r.x == x,
            r.y == y,
            r.content@ == s@,
            r.sty == (builder::StyleAccum { fg: None, bg: None, style: None }),
    {
        builder::StyleCellBuilder { x, y, content: str_chars(s), sty: builder::StyleAccum::new() }
    }

    /// Returns a builder that draws a styled line from `(x, y)`.
    pub fn line_builder(&self, x: usize, y: usize, len: usize) -> (r: builder::LineBuilder)
        ensures
            r == (builder::LineBuilder {
                x,
                y,
                len,
                orientation: None,
                sty: (builder::StyleAccum { fg: None, bg: None, style: None }),
            }),
    {
        builder::LineBuilder { x, y, len, orientation: None, sty: builder::StyleAccum::new() }
    }

    /// Returns a builder that draws a styled box anchored at `(x, y)`.
    pub fn box_builder(&self, x: usize, y: usize, width: usize, height: usize) -> (r:
        builder::BoxBuilder)
        ensures
            r == (builder::BoxBuilder {
                x,
                y,
                width,
                height,
                sty: (builder::StyleAccum { fg: None, bg: None, style: None }),
            }),
    {
        builder::BoxBuilder { x, y, width, height, sty: builder::StyleAccum::new() }
    }

    /// Draws a simple (unstyled) unicode box: the outline of a rectangle
    /// anchored at `(x, y)` with outer extent `(width + 1, height + 1)`.
    pub fn draw_box(&mut self, x: usize, y: usize, width: usize, height: usize)
        ensures
            final(self).grid() == render::paint_box(
                old(self).grid(),
                x as int,
                y as int,
                width as int,
                height as int,
                None,
                None,
                None,
            ),
            final(self).snap() == old(self).snap(),
            final(self).out() == old(self).out(),
            final(self).is_record() == old(self).is_record(),
            final(self).cursor_visible() == old(self).cursor_visible(),
            final(self).cursor_position() == old(self).cursor_position(),
            old(self).wf() ==> final(self).wf(),
    {
        self.paint_box_cells(x, y, width, height, None, None, None);
    }

    /// Sets cursor visibility, emitting the show or hide directive at once.
    pub fn set_cursor_visible(&mut self, visible: bool) -> (r: Result<(), TermError>)
        requires
            old(self).wf(),
        ensures
            final(self).wf(),
            final(self).cursor_visible() == visible,
            final(self).grid() == old(self).grid(),
            final(self).snap() == old(self).snap(),
            final(self).cursor_position() == old(self).cursor_position(),
            final(self).is_record() == old(self).is_record(),
            old(self).is_record() ==> r is Ok,
            r is Ok ==> final(self).out() == old(self).out().push(
                if visible {
                    Directive::ShowCursor
                } else {
                    Directive::HideCursor
                },
            ),
            r is Err ==> final(self).out() == old(self).out(),
            r matches Err(e) ==> e == TermError::WriteFailure,
    {
        self.cursor = visible;
        if visible {
            self.sink.emit(Directive::ShowCursor)
        } else {
            self.sink.emit(Directive::HideCursor)
        }
    }

    /// Tears the buffer down: if the cursor was hidden, shows it again, so
    /// the terminal is never left without a cursor; then hands the terminal
    /// back by leaving the alternate screen. Call before the buffer is
    /// dropped. A recording buffer has nothing to hand back and cannot
    /// fail.
    pub fn close(&mut self) -> (r: Result<(), TermError>)
        requires
            old(self).wf(),
        ensures
            final(self).wf(),
            final(self).cursor_visible(),
            final(self).grid() == old(self).grid(),
            final(self).snap() == old(self).snap(),
            final(self).cursor_position() == old(self).cursor_position(),
            final(self).is_record() == old(self).is_record(),
            old(self).is_record() ==> r is Ok,
            r is Ok && !old(self).cursor_visible() ==> final(self).out() == old(
                self,
            ).out().push(Directive::ShowCursor),
            r is Ok && old(self).cursor_visible() ==> final(self).out() == old(self).out(),
            r is Err ==> final(self).out() == old(self).out() || final(self).out() == old(
                self,
            ).out().push(Directive::ShowCursor),
            r matches Err(e) ==> e == TermError::WriteFailure,
    {
        if !self.cursor {
            match self.set_cursor_visible(true) {
                Ok(()) => {},
                Err(e) => {
                    return Err(e);
                },
            }
        }
        self.sink.release()
    }

    /// Flushes the internal buffer to the terminal.
    ///
    /// Walks the rows: a fully blank row gets a clear-line directive; a row
    /// that differs from the snapshot is repainted whole and its snapshot
    /// row replaced; an unchanged row emits nothing. Then the cursor is
    /// placed (when visible) and the stream flushed. On a write failure the
    /// flush stops at once and surfaces the failure: what was emitted is a
    /// leading slice of the intended stream, and the snapshot has advanced
    /// exactly for the rows whose repaint completed before the failure —
    /// later rows keep their old snapshot.
    #[verifier::rlimit(100)]
    pub fn flush(&mut self) -> (r: Result<(), TermError>)
        requires
            old(self).wf(),
        ensures
            final(self).wf(),
            final(self).grid() == old(self).grid(),
            final(self).cursor_visible() == old(self).cursor_visible(),
            final(self).cursor_position() == old(self).cursor_position(),
            final(self).is_record() == old(self).is_record(),
            old(self).is_record() ==> r is Ok,
            r is Ok ==> final(self).out() == old(self).out() + render::flush_directives(
                old(self).grid(),
                old(self).snap(),
                old(self).cursor_visible(),
                old(self).cursor_position(),
            ),
            r is Ok ==> final(self).snap() == old(self).grid(),
            r matches Err(e) ==> e == TermError::WriteFailure,
            r is Err ==> old(self).out().is_prefix_of(final(self).out()),
            r is Err ==> final(self).out().is_prefix_of(
                old(self).out() + render::flush_directives(
                    old(self).grid(),
                    old(self).snap(),
                    old(self).cursor_visible(),
                    old(self).cursor_position(),
                ),
            ),
            r is Err ==> exists|k: int|
                0 <= k <= old(self).grid().len() && render::snapshot_advanced(
                    final(self).snap(),
                    old(self).grid(),
                    old(self).snap(),
                    k,
                ),
    {
        let ghost g0 = self.grid();
        let ghost s0 = self.snap();
        let ghost log0 = self.out();
        let rows = self.buffer.len();
        proof {
            assert(rows == g0.len());
            assert(render::frame_directives(g0, s0, 0) =~= Seq::<Directive>::empty());
            assert(log0 + Seq::<Directive>::empty() =~= log0);
        }
        let mut y: usize = 0;
        while y < rows
            invariant
                y <= rows,
                rows == self.buffer@.len(),
                rows == g0.len(),
                g0 == old(self).grid(),
                s0 == old(self).snap(),
                log0 == old(self).out(),
                old(self).wf(),
                self.wf(),
                self.grid() == g0,
                self.cursor_visible() == old(self).cursor_visible(),
                self.cursor_position() == old(self).cursor_position(),
                self.is_record() == old(self).is_record(),
                self.snap().len() == s0.len(),
                forall|j: int| 0 <= j < y ==> #[trigger] self.snap()[j] == g0[j],
                forall|j: int| y <= j < s0.len() ==> #[trigger] self.snap()[j] == s0[j],
                self.out() == log0 + render::frame_directives(g0, s0, y as int),
                log0.len() <= self.out().len(),
                forall|i: int| 0 <= i < log0.len() ==> log0[i] == self.out()[i],
            decreases rows - y,
        {
            let ghost row = g0[y as int];
            let ghost prow = s0[y as int];
            let ghost log_row_start = self.out();
            proof {
                assert(self.grid()[y as int] == self.buffer@[y as int]@);
                assert(self.snap()[y as int] == self.prev_buffer@[y as int]@);
                assert(self.snap().len() == self.prev_buffer@.len());
            }
            let blank = row_all_empty(&self.buffer[y]);
            if blank {
                match self.sink.emit(Directive::Goto(1, y + 1)) {
                    Ok(()) => {},
                    Err(e) => {
                        proof {
                            sink::lemma_log_prefix(log0, self.out());
                            assert(self.out() =~= log0 + render::frame_directives(
                                g0,
                                s0,
                                y as int,
                            ) + Seq::<Directive>::empty());
                            render::lemma_prefix_refl(self.out());
                            assert(Seq::<Directive>::empty().is_prefix_of(
                                render::row_directives(y as int, row, prow),
                            )) by {
                                assert(Seq::<Directive>::empty() =~= render::row_directives(
                                    y as int,
                                    row,
                                    prow,
                                ).subrange(0, 0));
                            }
                            render::lemma_partial_flush_prefix(
                                log0,
                                g0,
                                s0,
                                old(self).cursor_visible(),
                                old(self).cursor_position(),
                                y as int,
                                Seq::<Directive>::empty(),
                                self.out(),
                            );
                            assert(render::snapshot_advanced(self.snap(), g0, s0, y as int));
                        }
                        return Err(e);
                    },
                }
                match self.sink.emit(Directive::ClearLine) {
                    Ok(()) => {},
                    Err(e) => {
                        proof {
                            sink::lemma_log_prefix(log0, self.out());
                            let rd = render::row_directives(y as int, row, prow);
                            let p = seq![Directive::Goto(1, (y + 1) as usize)];
                            assert(self.out() =~= log0 + render::frame_directives(
                                g0,
                                s0,
                                y as int,
                            ) + p);
                            render::lemma_prefix_refl(self.out());
                            assert(p.is_prefix_of(rd)) by {
                                assert(rd[0] == Directive::Goto(1, (y + 1) as usize));
                                assert(rd.len() >= 2);
                                assert(p =~= rd.subrange(0, 1));
                            }
                            render::lemma_partial_flush_prefix(
                                log0,
                                g0,
                                s0,
                                old(self).cursor_visible(),
                                old(self).cursor_position(),
                                y as int,
                                p,
                                self.out(),
                            );
                            assert(render::snapshot_advanced(self.snap(), g0, s0, y as int));
                        }
                        return Err(e);
                    },
                }
            }
            let changed = !rows_equal(&self.buffer[y], &self.prev_buffer[y]);
            let ghost bpart = if blank {
                seq![Directive::Goto(1, (y + 1) as usize), Directive::ClearLine]
            } else {
                Seq::<Directive>::empty()
            };
            let ghost log_blank_end = self.out();
            proof {
                assert(changed == (row != prow));
                assert(log_blank_end =~= log_row_start + bpart);
            }
            if changed {
                match self.sink.emit(Directive::Goto(1, y + 1)) {
                    Ok(()) => {},
                    Err(e) => {
                        proof {
                            sink::lemma_log_prefix(log0, self.out());
                            let rd = render::row_directives(y as int, row, prow);
                            assert(self.out() =~= log0 + render::frame_directives(
                                g0,
                                s0,
                                y as int,
                            ) + bpart);
                            render::lemma_prefix_refl(self.out());
                            assert(rd =~= bpart + (seq![Directive::Goto(1, (y + 1) as usize)]
                                + render::row_cells_directives(row, 0)));
                            render::lemma_prefix_append(
                                bpart,
                                seq![Directive::Goto(1, (y + 1) as usize)]
                                    + render::row_cells_directives(row, 0),
                            );
                            render::lemma_partial_flush_prefix(
                                log0,
                                g0,
                                s0,
                                old(self).cursor_visible(),
                                old(self).cursor_position(),
                                y as int,
                                bpart,
                                self.out(),
                            );
                            assert(render::snapshot_advanced(self.snap(), g0, s0, y as int));
                        }
                        return Err(e);
                    },
                }
                let row_len = self.buffer[y].len();
                let ghost log_cells_start = self.out();
                proof {
                    assert(log_cells_start =~= log0 + render::frame_directives(g0, s0, y as int)
                        + bpart + seq![Directive::Goto(1, (y + 1) as usize)]);
                    assert(render::row_directives(y as int, row, prow) =~= bpart + (seq![
                        Directive::Goto(1, (y + 1) as usize),
                    ] + render::row_cells_directives(row, 0)));
                }
                let mut x: usize = 0;
                let mut done = false;
                while x < row_len && !done
                    invariant
                        rows == self.buffer@.len(),
                        rows == g0.len(),
                        y < rows,
                        row == g0[y as int],
                        prow == s0[y as int],
                        row_len == row.len(),
                        g0 == old(self).grid(),
                        s0 == old(self).snap(),
                        log0 == old(self).out(),
                        old(self).wf(),
                        self.wf(),
                        self.grid() == g0,
                        self.cursor_visible() == old(self).cursor_visible(),
                        self.cursor_position() == old(self).cursor_position(),
                        self.is_record() == old(self).is_record(),
                        self.snap().len() == s0.len(),
                        forall|j: int| 0 <= j < y ==> #[trigger] self.snap()[j] == g0[j],
                        forall|j: int| y <= j < s0.len() ==> #[trigger] self.snap()[j] == s0[j],
                        log0.len() <= self.out().len(),
                        forall|i: int| 0 <= i < log0.len() ==> log0[i] == self.out()[i],
                        log_cells_start + render::row_cells_directives(row, 0) == self.out()
                            + render::row_cells_directives(row, x as int),
                        log_cells_start == log0 + render::frame_directives(g0, s0, y as int)
                            + bpart + seq![Directive::Goto(1, (y + 1) as usize)],
                        render::row_directives(y as int, row, prow) == bpart + (seq![
                            Directive::Goto(1, (y + 1) as usize),
                        ] + render::row_cells_directives(row, 0)),
                        done ==> x == row_len,
                    decreases row_len - x,
                {
                    let cell = self.buffer[y][x];
                    proof {
                        assert(self.grid()[y as int] == self.buffer@[y as int]@);
                        assert(cell == row[x as int]);
                    }
                    let ghost log_cell_start = self.out();
                    match self.sink.emit_cell(cell) {
                        Ok(()) => {},
                        Err(e) => {
                            proof {
                                sink::lemma_log_prefix(log0, self.out());
                                let rcd0 = render::row_cells_directives(row, 0);
                                let rd = render::row_directives(y as int, row, prow);
                                let cd = render::cell_directives(cell);
                                let nxs = if x + render::cell_advance(cell) > row.len() {
                                    row.len() as int
                                } else {
                                    x + render::cell_advance(cell)
                                };
                                assert(render::row_cells_directives(row, x as int) == cd
                                    + render::row_cells_directives(row, nxs));
                                render::lemma_prefix_append(
                                    log_cell_start + cd,
                                    render::row_cells_directives(row, nxs),
                                );
                                assert(log_cell_start + cd + render::row_cells_directives(
                                    row,
                                    nxs,
                                ) =~= log_cells_start + rcd0);
                                render::lemma_prefix_trans(
                                    self.out(),
                                    log_cell_start + cd,
                                    log_cells_start + rcd0,
                                );
                                assert(log_cells_start + rcd0 =~= log0
                                    + render::frame_directives(g0, s0, y as int) + rd);
                                render::lemma_prefix_refl(rd);
                                render::lemma_partial_flush_prefix(
                                    log0,
                                    g0,
                                    s0,
                                    old(self).cursor_visible(),
                                    old(self).cursor_position(),
                                    y as int,
                                    rd,
                                    self.out(),
                                );
                                assert(render::snapshot_advanced(self.snap(), g0, s0, y as int));
                            }
                            return Err(e);
                        },
                    }
                    let mut w = cell.width;
                    if w == 0 {
                        w = 1;
                    }
                    proof {
                        assert(w == render::cell_advance(cell));
                        assert(render::row_cells_directives(row, x as int)
                            == render::cell_directives(cell) + render::row_cells_directives(
                            row,
                            if x + render::cell_advance(cell) > row.len() {
                                row.len() as int
                            } else {
                                x + render::cell_advance(cell)
                            },
                        ));
                    }
                    match x.checked_add(w) {
                        Some(nx) => {
                            let nxc = if nx > row_len {
                                row_len
                            } else {
                                nx
                            };
                            proof {
                                if nx > row_len {
                                    assert(render::row_cells_directives(row, nx as int)
                                        =~= Seq::<Directive>::empty());
                                    assert(render::row_cells_directives(row, row.len() as int)
                                        =~= Seq::<Directive>::empty());
                                }
                                assert(log_cells_start + render::row_cells_directives(row, 0)
                                    =~= (log_cell_start + render::cell_directives(cell))
                                    + render::row_cells_directives(row, nxc as int));
                            }
                            x = nxc;
                        },
                        None => {
                            proof {
                                assert(x + w > usize::MAX);
                                assert(row.len() <= usize::MAX);
                                assert(render::row_cells_directives(row, row_len as int)
                                    =~= Seq::<Directive>::empty());
                                assert(log_cells_start + render::row_cells_directives(row, 0)
                                    =~= (log_cell_start + render::cell_directives(cell))
                                    + render::row_cells_directives(row, row_len as int));
                            }
                            x = row_len;
                            done = true;
                        },
                    }
                }
                proof {
                    assert(render::row_cells_directives(row, x as int) =~= Seq::<
                        Directive,
                    >::empty());
                    assert(self.out() =~= log_cells_start + render::row_cells_directives(row, 0));
                }
                let copy = clone_row(&self.buffer[y]);
                let ghost snap_pre = self.snap();
                proof {
                    assert(y < self.prev_buffer@.len());
                    assert(copy@ == row);
                }
                self.prev_buffer.set(y, copy);
                proof {
                    assert(self.snap() =~~= snap_pre.update(y as int, row));
                }
            }
            proof {
                let rd = render::row_directives(y as int, row, prow);
                if changed {
                    if blank {
                        assert(rd =~= seq![
                            Directive::Goto(1, (y + 1) as usize),
                            Directive::ClearLine,
                        ] + (seq![Directive::Goto(1, (y + 1) as usize)]
                            + render::row_cells_directives(row, 0)));
                    } else {
                        assert(rd =~= Seq::<Directive>::empty() + (seq![
                            Directive::Goto(1, (y + 1) as usize),
                        ] + render::row_cells_directives(row, 0)));
                    }
                } else {
                    if blank {
                        assert(rd =~= seq![
                            Directive::Goto(1, (y + 1) as usize),
                            Directive::ClearLine,
                        ] + Seq::<Directive>::empty());
                    } else {
                        assert(rd =~= Seq::<Directive>::empty() + Seq::<Directive>::empty());
                    }
                }
                assert(self.out() =~= log_row_start + rd);
                assert(render::frame_directives(g0, s0, y as int + 1)
                    == render::frame_directives(g0, s0, y as int) + rd);
                assert(self.out() =~= log0 + render::frame_directives(g0, s0, y as int + 1));
            }
            y = y + 1;
        }
        let ghost log_frame_end = self.out();
        if self.cursor {
            let cx = self.cursor_pos.0;
            let cy = self.cursor_pos.1;
            match self.sink.emit(Directive::Goto(cx, cy)) {
                Ok(()) => {},
                Err(e) => {
                    proof {
                        sink::lemma_log_prefix(log0, self.out());
                        let tail = render::cursor_tail(
                            old(self).cursor_visible(),
                            old(self).cursor_position(),
                        );
                        assert(self.out() =~= log0 + render::frame_directives(
                            g0,
                            s0,
                            g0.len() as int,
                        ) + Seq::<Directive>::empty());
                        render::lemma_prefix_refl(self.out());
                        assert(Seq::<Directive>::empty().is_prefix_of(tail)) by {
                            assert(Seq::<Directive>::empty() =~= tail.subrange(0, 0));
                        }
                        render::lemma_tail_flush_prefix(
                            log0,
                            g0,
                            s0,
                            old(self).cursor_visible(),
                            old(self).cursor_position(),
                            Seq::<Directive>::empty(),
                            self.out(),
                        );
                        assert(render::snapshot_advanced(self.snap(), g0, s0, g0.len() as int));
                    }
                    return Err(e);
                },
            }
        }
        match self.sink.emit(Directive::Flush) {
            Ok(()) => {},
            Err(e) => {
                proof {
                    sink::lemma_log_prefix(log0, self.out());
                    let tail = render::cursor_tail(
                        old(self).cursor_visible(),
                        old(self).cursor_position(),
                    );
                    let tpart = if old(self).cursor_visible() {
                        seq![
                            Directive::Goto(
                                old(self).cursor_position().0,
                                old(self).cursor_position().1,
                            ),
                        ]
                    } else {
                        Seq::<Directive>::empty()
                    };
                    assert(self.out() =~= log0 + render::frame_directives(
                        g0,
                        s0,
                        g0.len() as int,
                    ) + tpart);
                    render::lemma_prefix_refl(self.out());
                    render::lemma_prefix_append(tpart, seq![Directive::Flush]);
                    assert(tpart + seq![Directive::Flush] =~= tail);
                    render::lemma_tail_flush_prefix(
                        log0,
                        g0,
                        s0,
                        old(self).cursor_visible(),
                        old(self).cursor_position(),
                        tpart,
                        self.out(),
                    );
                    assert(render::snapshot_advanced(self.snap(), g0, s0, g0.len() as int));
                }
                return Err(e);
            },
        }
        proof {
            let tail = render::cursor_tail(
                old(self).cursor_visible(),
                old(self).cursor_position(),
            );
            if old(self).cursor_visible() {
                assert(tail =~= seq![
                    Directive::Goto(old(self).cursor_position().0, old(self).cursor_position().1),
                    Directive::Flush,
                ]);
            } else {
                assert(tail =~= seq![Directive::Flush]);
            }
            assert(self.out() =~= log_frame_end + tail);
            assert(self.out() =~= log0 + render::flush_directives(
                g0,
                s0,
                old(self).cursor_visible(),
                old(self).cursor_position(),
            ));
            assert(self.snap() =~~= g0);
        }
        Ok(())
    }
}

/// A cell holding one glyph under the given accumulated style.
fn build_glyph(ch: char, fg: Option<Color>, bg: Option<Color>, style: Option<Style>) -> (r:
    TermCell)
    ensures
        r == styled_cell(ch, fg, bg, style),
{
    let width = display_width(ch);
    TermCell { content: ch, fg, bg, style, width }
}

/// A real grid and each of its rows fit in `usize`-indexed vectors.
proof fn lemma_rows_bounded(b: TermBuf)
    ensures
        b.grid().len() <= usize::MAX,
        forall|j: int| 0 <= j < b.grid().len() ==> (#[trigger] b.grid()[j]).len() <= usize::MAX,
{
    broadcast use vstd::std_specs::vec::axiom_spec_len;

    assert(vstd::std_specs::vec::spec_vec_len(&b.buffer) == b.buffer@.len());
    assert forall|j: int|
        0 <= j < b.grid().len() implies (#[trigger] b.grid()[j]).len() <= usize::MAX by {
        let v = b.buffer@[j];
        assert(b.grid()[j] == v@);
        assert(vstd::std_specs::vec::spec_vec_len(&v) == v@.len());
    }
}

/// Whether every cell of the row is the empty cell.
fn row_all_empty(row: &Vec<TermCell>) -> (r: bool)
    ensures
        r == render::row_blank(row@),
{
    let n = row.len();
    let mut i: usize = 0;
    while i < n
        invariant
            i <= n,
            n == row@.len(),
            forall|k: int| 0 <= k < i ==> row@[k] == empty_cell(),
        decreases n - i,
    {
        let e = TermCell::empty();
        if !(row[i] == e) {
            return false;
        }
        i = i + 1;
    }
    true
}

/// Whether two rows hold the same cells.
fn rows_equal(a: &Vec<TermCell>, b: &Vec<TermCell>) -> (r: bool)
    ensures
        r == (a@ == b@),
{
    let n = a.len();
    if n != b.len() {
        return false;
    }
    let mut i: usize = 0;
    while i < n
        invariant
            i <= n,
            n == a@.len(),
            n == b@.len(),
            forall|k: int| 0 <= k < i ==> a@[k] == b@[k],
        decreases n - i,
    {
        if !(a[i] == b[i]) {
            return false;
        }
        i = i + 1;
    }
    proof {
        assert(a@ =~= b@);
    }
    true
}

/// A copy of a row.
fn clone_row(row: &Vec<TermCell>) -> (r: Vec<TermCell>)
    ensures
        r@ == row@,
{
    let n = row.len();
    let mut v: Vec<TermCell> = Vec::new();
    let mut i: usize = 0;
    while i < n
        invariant
            i <= n,
            n == row@.len(),
            v@ =~= row@.take(i as int),
        decreases n - i,
    {
        v.push(row[i]);
        proof {
            assert(v@ =~= row@.take(i as int + 1));
        }
        i = i + 1;
    }
    proof {
        assert(row@.take(n as int) =~= row@);
    }
    v
}

/// The characters of a string, in order, as a vector.
fn str_chars(s: &str) -> (v: Vec<char>)
    ensures
        v@ == s@,
{
    let n = s.unicode_len();
    let mut v: Vec<char> = Vec::new();
    let mut i: usize = 0;
    while i < n
        invariant
            i <= n,
            n == s@.len(),
            v@ =~= s@.take(i as int),
        decreases n - i,
    {
        let ch = s.get_char(i);
        v.push(ch);
        proof {
            assert(v@ =~= s@.take(i as int + 1));
        }
        i = i + 1;
    }
    proof {
        assert(s@.take(n as int) =~= s@);
    }
    v
}

} // verus!
