//! Fluent, style-accumulating constructors: a single cell, a run of styled
//! text, a line, and a box outline. Each builder carries the same style
//! accumulator and commits through `TermBuf`'s drawing surface.

use crate::render;
use crate::style::style_added;
use crate::{styled_cell, Color, Style, TermBuf, TermCell};
use vstd::prelude::*;

verus! {

/// The colors and attributes a builder has accumulated so far: one shared
/// shape, so every builder composes style the same way.
#[derive(Debug, Clone, Copy, PartialEq, Eq, Structural)]
pub struct StyleAccum {
    /// The foreground color, if one was set.
    pub fg: Option<Color>,
    /// The background color, if one was set.
    pub bg: Option<Color>,
    /// The accumulated attributes, if any were added.
    pub style: Option<Style>,
}

impl StyleAccum {
    /// An accumulator with nothing set.
    pub fn new() -> (r: StyleAccum)
        ensures
            r == (StyleAccum { fg: None, bg: None, style: None }),
    {
        StyleAccum { fg: None, bg: None, style: None }
    }

    /// Sets the foreground color.
    pub fn with_fg(self, color: Color) -> (r: StyleAccum)
        ensures
            r == (StyleAccum { fg: Some(color), ..self }),
    {
        StyleAccum { fg: Some(color), ..self }
    }

    /// Sets the background color.
    pub fn with_bg(self, color: Color) -> (r: StyleAccum)
        ensures
            r == (StyleAccum { bg: Some(color), ..self }),
    {
        StyleAccum { bg: Some(color), ..self }
    }

    /// Sets the foreground color to an optional value, replacing whatever
    /// was there.
    pub fn with_maybe_fg(self, color: Option<Color>) -> (r: StyleAccum)
        ensures
            r == (StyleAccum { fg: color, ..self }),
    {
        StyleAccum { fg: color, ..self }
    }

    /// Sets the background color to an optional value, replacing whatever
    /// was there.
    pub fn with_maybe_bg(self, color: Option<Color>) -> (r: StyleAccum)
        ensures
            r == (StyleAccum { bg: color, ..self }),
    {
        StyleAccum { bg: color, ..self }
    }

    /// Adds attributes to the accumulated set; earlier attributes stay.
    pub fn with_style(self, style: Style) -> (r: StyleAccum)
        ensures
            r == (StyleAccum { style: Some(style_added(self.style, style)), ..self }),
    {
        let joined = match self.style {
            Some(t) => t.union(style),
            None => style,
        };
        StyleAccum { style: Some(joined), ..self }
    }

    /// Replaces the attribute set with an optional value.
    pub fn with_maybe_styles(self, styles: Option<Style>) -> (r: StyleAccum)
        ensures
            r == (StyleAccum { style: styles, ..self }),
    {
        StyleAccum { style: styles, ..self }
    }
}

/// A builder to construct a styled cell.
#[derive(Debug, Clone, Copy, PartialEq, Eq, Structural)]
pub struct CellBuilder {
    /// The glyph the built cell will hold.
    pub content: char,
    /// The accumulated style.
    pub sty: StyleAccum,
}

impl CellBuilder {
    /// Creates a new `CellBuilder`.
    pub fn new(content: char) -> (r: CellBuilder)
        ensures
            r == (CellBuilder { content, sty: (StyleAccum { fg: None, bg: None, style: None }) }),
    {
        CellBuilder { content, sty: StyleAccum::new() }
    }

    /// Sets the character.
    pub fn char(self, content: char) -> (r: CellBuilder)
        ensures
            r == (CellBuilder { content, ..self }),
    {
        CellBuilder { content, ..self }
    }

    /// Sets the foreground color.
    pub fn fg(self, color: Color) -> (r: CellBuilder)
        ensures
            r == (CellBuilder { sty: (StyleAccum { fg: Some(color), ..self.sty }), ..self }),
    {
        CellBuilder { sty: self.sty.with_fg(color), ..self }
    }

    /// Sets the background color.
    pub fn bg(self, color: Color) -> (r: CellBuilder)
        ensures
            r == (CellBuilder { sty: (StyleAccum { bg: Some(color), ..self.sty }), ..self }),
    {
        CellBuilder { sty: self.sty.with_bg(color), ..self }
    }

    /// Sets the foreground color to an Option.
    pub fn maybe_fg(self, color: Option<Color>) -> (r: CellBuilder)
        ensures
            r == (CellBuilder { sty: (StyleAccum { fg: color, ..self.sty }), ..self }),
    {
        CellBuilder { sty: self.sty.with_maybe_fg(color), ..self }
    }

    /// Sets the background color to an Option.
    pub fn maybe_bg(self, color: Option<Color>) -> (r: CellBuilder)
        ensures
            r == (CellBuilder { sty: (StyleAccum { bg: color, ..self.sty }), ..self }),
    {
        CellBuilder { sty: self.sty.with_maybe_bg(color), ..self }
    }

    /// Adds a style.
    pub fn style(self, style: Style) -> (r: CellBuilder)
        ensures
            r == (CellBuilder { sty: (StyleAccum { style: Some(style_added(self.sty.style, style)), ..self.sty }), ..self }),
    {
        CellBuilder { sty: self.sty.with_style(style), ..self }
    }

    /// Adds multiple styles.
    pub fn styles(self, styles: Style) -> (r: CellBuilder)
        ensures
            r == (CellBuilder { sty: (StyleAccum { style: Some(style_added(self.sty.style, styles)), ..self.sty }), ..self }),
    {
        CellBuilder { sty: self.sty.with_style(styles), ..self }
    }

    /// Sets all styles.
    pub fn maybe_styles(self, styles: Option<Style>) -> (r: CellBuilder)
        ensures
            r == (CellBuilder { sty: (StyleAccum { style: styles, ..self.sty }), ..self }),
    {
        CellBuilder { sty: self.sty.with_maybe_styles(styles), ..self }
    }

    /// Returns the styled cell; no buffer is touched.
    pub fn build(&self) -> (r: TermCell)
        ensures
            r == styled_cell(self.content, self.sty.fg, self.sty.bg, self.sty.style),
    {
        let width = crate::display_width(self.content);
        TermCell {
            content: self.content,
            fg: self.sty.fg,
            bg: self.sty.bg,
            style: self.sty.style,
            width,
        }
    }

    /// Same as `build` but uses a different character, keeping the
    /// accumulated style.
    pub fn build_with(&self, ch: char) -> (r: TermCell)
        ensures
            r == styled_cell(ch, self.sty.fg, self.sty.bg, self.sty.style),
    {
        let width = crate::display_width(ch);
        TermCell { content: ch, fg: self.sty.fg, bg: self.sty.bg, style: self.sty.style, width }
    }
}

/// A builder to construct a run of styled cells from a text.
///
/// Create one with [`TermBuf::char_builder`] or [`TermBuf::string_builder`],
/// accumulate style, then commit with [`StyleCellBuilder::draw`].
#[derive(Debug)]
pub struct StyleCellBuilder {
    /// The column of the run's first character.
    pub x: usize,
    /// The row the run is written on.
    pub y: usize,
    /// The characters to write, in order.
    pub content: Vec<char>,
    /// The accumulated style.
    pub sty: StyleAccum,
}

impl StyleCellBuilder {
    /// Sets the foreground color.
    pub fn fg(self, color: Color) -> (r: StyleCellBuilder)
        ensures
            r == (StyleCellBuilder { sty: (StyleAccum { fg: Some(color), ..self.sty }), ..self }),
    {
        let sty = self.sty.with_fg(color);
        StyleCellBuilder { sty, ..self }
    }

    /// Sets the background color.
    pub fn bg(self, color: Color) -> (r: StyleCellBuilder)
        ensures
            r == (StyleCellBuilder { sty: (StyleAccum { bg: Some(color), ..self.sty }), ..self }),
    {
        let sty = self.sty.with_bg(color);
        StyleCellBuilder { sty, ..self }
    }

    /// Sets the foreground color to an Option.
    pub fn maybe_fg(self, color: Option<Color>) -> (r: StyleCellBuilder)
        ensures
            r == (StyleCellBuilder { sty: (StyleAccum { fg: color, ..self.sty }), ..self }),
    {
        let sty = self.sty.with_maybe_fg(color);
        StyleCellBuilder { sty, ..self }
    }

    /// Sets the background color to an Option.
    pub fn maybe_bg(self, color: Option<Color>) -> (r: StyleCellBuilder)
        ensures
            r == (StyleCellBuilder { sty: (StyleAccum { bg: color, ..self.sty }), ..self }),
    {
        let sty = self.sty.with_maybe_bg(color);
        StyleCellBuilder { sty, ..self }
    }

    /// Adds a style.
    pub fn style(self, style: Style) -> (r: StyleCellBuilder)
        ensures
            r == (StyleCellBuilder { sty: (StyleAccum { style: Some(style_added(self.sty.style, style)), ..self.sty }), ..self }),
    {
        let sty = self.sty.with_style(style);
        StyleCellBuilder { sty, ..self }
    }

    /// Adds multiple styles.
    pub fn styles(self, styles: Style) -> (r: StyleCellBuilder)
        ensures
            r == (StyleCellBuilder { sty: (StyleAccum { style: Some(style_added(self.sty.style, styles)), ..self.sty }), ..self }),
    {
        let sty = self.sty.with_style(styles);
        StyleCellBuilder { sty, ..self }
    }

    /// Sets all styles.
    pub fn maybe_styles(self, styles: Option<Style>) -> (r: StyleCellBuilder)
        ensures
            r == (StyleCellBuilder { sty: (StyleAccum { style: styles, ..self.sty }), ..self }),
    {
        let sty = self.sty.with_maybe_styles(styles);
        StyleCellBuilder { sty, ..self }
    }

    /// Writes all the content to the buffer: one cell per character, the
    /// column advancing by each character's display width, every cell
    /// sharing the accumulated style.
    pub fn draw(&self, buf: &mut TermBuf)
        ensures
            final(buf).grid() == render::write_run(
                old(buf).grid(),
                self.x as int,
                self.y as int,
                self.content@,
                self.sty.fg,
                self.sty.bg,
                self.sty.style,
            ),
            final(buf).snap() == old(buf).snap(),
            final(buf).out() == old(buf).out(),
            final(buf).is_record() == old(buf).is_record(),
            final(buf).cursor_visible() == old(buf).cursor_visible(),
            final(buf).cursor_position() == old(buf).cursor_position(),
            old(buf).wf() ==> final(buf).wf(),
    {
        buf.write_text_run(self.x, self.y, &self.content, self.sty.fg, self.sty.bg, self.sty.style);
    }
}

/// Which way a [`LineBuilder`] draws.
#[derive(Debug, Clone, Copy, PartialEq, Eq, Structural)]
pub enum LineOrientation {
    Horizontal,
    Vertical,
}

/// A builder to construct a styled line.
///
/// Create one with [`TermBuf::line_builder`]; the orientation defaults to
/// horizontal.
#[derive(Debug, Clone, Copy, PartialEq, Eq, Structural)]
pub struct LineBuilder {
    /// The column of the line's first cell.
    pub x: usize,
    /// The row of the line's first cell.
    pub y: usize,
    /// How many cells the line covers.
    pub len: usize,
    /// The direction to draw in; horizontal when unset.
    pub orientation: Option<LineOrientation>,
    /// The accumulated style.
    pub sty: StyleAccum,
}

impl LineBuilder {
    /// Sets the x position.
    pub fn x(self, x: usize) -> (r: LineBuilder)
        ensures
            r == (LineBuilder { x, ..self }),
    {
        LineBuilder { x, ..self }
    }

    /// Sets the y position.
    pub fn y(self, y: usize) -> (r: LineBuilder)
        ensures
            r == (LineBuilder { y, ..self }),
    {
        LineBuilder { y, ..self }
    }

    /// Sets the length.
    pub fn len(self, len: usize) -> (r: LineBuilder)
        ensures
            r == (LineBuilder { len, ..self }),
    {
        LineBuilder { len, ..self }
    }

    /// Sets the line orientation to vertical.
    pub fn vertical(self) -> (r: LineBuilder)
        ensures
            r == (LineBuilder { orientation: Some(LineOrientation::Vertical), ..self }),
    {
        LineBuilder { orientation: Some(LineOrientation::Vertical), ..self }
    }

    /// Sets the line orientation to horizontal.
    pub fn horizontal(self) -> (r: LineBuilder)
        ensures
            r == (LineBuilder { orientation: Some(LineOrientation::Horizontal), ..self }),
    {
        LineBuilder { orientation: Some(LineOrientation::Horizontal), ..self }
    }

    /// Sets the foreground color.
    pub fn fg(self, color: Color) -> (r: LineBuilder)
        ensures
            r == (LineBuilder { sty: (StyleAccum { fg: Some(color), ..self.sty }), ..self }),
    {
        LineBuilder { sty: self.sty.with_fg(color), ..self }
    }

    /// Sets the background color.
    pub fn bg(self, color: Color) -> (r: LineBuilder)
        ensures
            r == (LineBuilder { sty: (StyleAccum { bg: Some(color), ..self.sty }), ..self }),
    {
        LineBuilder { sty: self.sty.with_bg(color), ..self }
    }

    /// Sets the foreground color to an Option.
    pub fn maybe_fg(self, color: Option<Color>) -> (r: LineBuilder)
        ensures
            r == (LineBuilder { sty: (StyleAccum { fg: color, ..self.sty }), ..self }),
    {
        LineBuilder { sty: self.sty.with_maybe_fg(color), ..self }
    }

    /// Sets the background color to an Option.
    pub fn maybe_bg(self, color: Option<Color>) -> (r: LineBuilder)
        ensures
            r == (LineBuilder { sty: (StyleAccum { bg: color, ..self.sty }), ..self }),
    {
        LineBuilder { sty: self.sty.with_maybe_bg(color), ..self }
    }

    /// Adds a style.
    pub fn style(self, style: Style) -> (r: LineBuilder)
        ensures
            r == (LineBuilder { sty: (StyleAccum { style: Some(style_added(self.sty.style, style)), ..self.sty }), ..self }),
    {
        LineBuilder { sty: self.sty.with_style(style), ..self }
    }

    /// Adds multiple styles.
    pub fn styles(self, styles: Style) -> (r: LineBuilder)
        ensures
            r == (LineBuilder { sty: (StyleAccum { style: Some(style_added(self.sty.style, styles)), ..self.sty }), ..self }),
    {
        LineBuilder { sty: self.sty.with_style(styles), ..self }
    }

    /// Sets all styles.
    pub fn maybe_styles(self, styles: Option<Style>) -> (r: LineBuilder)
        ensures
            r == (LineBuilder { sty: (StyleAccum { style: styles, ..self.sty }), ..self }),
    {
        LineBuilder { sty: self.sty.with_maybe_styles(styles), ..self }
    }

    /// Writes the line to the buffer: `len` horizontal or vertical glyph
    /// cells from the anchor, each carrying the accumulated style.
    pub fn draw(&self, buf: &mut TermBuf)
        ensures
            self.orientation == Some(LineOrientation::Vertical) ==> final(buf).grid()
                == render::paint_col_span(
                old(buf).grid(),
                self.x as int,
                self.y as int,
                self.y as int + self.len as int,
                styled_cell('│', self.sty.fg, self.sty.bg, self.sty.style),
            ),
            self.orientation != Some(LineOrientation::Vertical) ==> final(buf).grid()
                == render::paint_row_span(
                old(buf).grid(),
                self.y as int,
                self.x as int,
                self.x as int + self.len as int,
                styled_cell('─', self.sty.fg, self.sty.bg, self.sty.style),
            ),
            final(buf).snap() == old(buf).snap(),
            final(buf).out() == old(buf).out(),
            final(buf).is_record() == old(buf).is_record(),
            final(buf).cursor_visible() == old(buf).cursor_visible(),
            final(buf).cursor_position() == old(buf).cursor_position(),
            old(buf).wf() ==> final(buf).wf(),
    {
        match self.orientation {
            Some(LineOrientation::Vertical) => {
                let cell = CellBuilder { content: '│', sty: self.sty }.build();
                buf.fill_col_span(self.x, self.y, self.len, cell);
            },
            _ => {
                let cell = CellBuilder { content: '─', sty: self.sty }.build();
                buf.fill_row_span(self.x, self.y, self.len, cell);
            },
        }
    }
}

/// A builder to construct a styled box outline.
///
/// Create one with [`TermBuf::box_builder`].
#[derive(Debug, Clone, Copy, PartialEq, Eq, Structural)]
pub struct BoxBuilder {
    /// The column of the box's top-left corner.
    pub x: usize,
    /// The row of the box's top-left corner.
    pub y: usize,
    /// The box's inner width; the outer extent is `width + 1`.
    pub width: usize,
    /// The box's inner height; the outer extent is `height + 1`.
    pub height: usize,
    /// The accumulated style.
    pub sty: StyleAccum,
}

impl BoxBuilder {
    /// Sets the x position.
    pub fn x(self, x: usize) -> (r: BoxBuilder)
        ensures
            r == (BoxBuilder { x, ..self }),
    {
        BoxBuilder { x, ..self }
    }

    /// Sets the y position.
    pub fn y(self, y: usize) -> (r: BoxBuilder)
        ensures
            r == (BoxBuilder { y, ..self }),
    {
        BoxBuilder { y, ..self }
    }

    /// Sets the width.
    pub fn width(self, width: usize) -> (r: BoxBuilder)
        ensures
            r == (BoxBuilder { width, ..self }),
    {
        BoxBuilder { width, ..self }
    }

    /// Sets the height.
    pub fn height(self, height: usize) -> (r: BoxBuilder)
        ensures
            r == (BoxBuilder { height, ..self }),
    {
        BoxBuilder { height, ..self }
    }

    /// Sets the foreground color.
    pub fn fg(self, color: Color) -> (r: BoxBuilder)
        ensures
            r == (BoxBuilder { sty: (StyleAccum { fg: Some(color), ..self.sty }), ..self }),
    {
        BoxBuilder { sty: self.sty.with_fg(color), ..self }
    }

    /// Sets the background color.
    pub fn bg(self, color: Color) -> (r: BoxBuilder)
        ensures
            r == (BoxBuilder { sty: (StyleAccum { bg: Some(color), ..self.sty }), ..self }),
    {
        BoxBuilder { sty: self.sty.with_bg(color), ..self }
    }

    /// Sets the foreground color to an Option.
    pub fn maybe_fg(self, color: Option<Color>) -> (r: BoxBuilder)
        ensures
            r == (BoxBuilder { sty: (StyleAccum { fg: color, ..self.sty }), ..self }),
    {
        BoxBuilder { sty: self.sty.with_maybe_fg(color), ..self }
    }

    /// Sets the background color to an Option.
    pub fn maybe_bg(self, color: Option<Color>) -> (r: BoxBuilder)
        ensures
            r == (BoxBuilder { sty: (StyleAccum { bg: color, ..self.sty }), ..self }),
    {
        BoxBuilder { sty: self.sty.with_maybe_bg(color), ..self }
    }

    /// Adds a style.
    pub fn style(self, style: Style) -> (r: BoxBuilder)
        ensures
            r == (BoxBuilder { sty: (StyleAccum { style: Some(style_added(self.sty.style, style)), ..self.sty }), ..self }),
    {
        BoxBuilder { sty: self.sty.with_style(style), ..self }
    }

    /// Adds multiple styles.
    pub fn styles(self, styles: Style) -> (r: BoxBuilder)
        ensures
            r == (BoxBuilder { sty: (StyleAccum { style: Some(style_added(self.sty.style, styles)), ..self.sty }), ..self }),
    {
        BoxBuilder { sty: self.sty.with_style(styles), ..self }
    }

    /// Sets all styles.
    pub fn maybe_styles(self, styles: Option<Style>) -> (r: BoxBuilder)
        ensures
            r == (BoxBuilder { sty: (StyleAccum { style: styles, ..self.sty }), ..self }),
    {
        BoxBuilder { sty: self.sty.with_maybe_styles(styles), ..self }
    }

    /// Writes the box outline to the buffer, every glyph carrying the
    /// accumulated style; the interior is untouched.
    pub fn draw(&self, buf: &mut TermBuf)
        ensures
            final(buf).grid() == render::paint_box(
                old(buf).grid(),
                self.x as int,
                self.y as int,
                self.width as int,
                self.height as int,
                self.sty.fg,
                self.sty.bg,
                self.sty.style,
            ),
            final(buf).snap() == old(buf).snap(),
            final(buf).out() == old(buf).out(),
            final(buf).is_record() == old(buf).is_record(),
            final(buf).cursor_visible() == old(buf).cursor_visible(),
            final(buf).cursor_position() == old(buf).cursor_position(),
            old(buf).wf() ==> final(buf).wf(),
    {
        buf.paint_box_cells(
            self.x,
            self.y,
            self.width,
            self.height,
            self.sty.fg,
            self.sty.bg,
            self.sty.style,
        );
    }
}

} // verus!
