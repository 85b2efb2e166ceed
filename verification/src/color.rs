use vstd::prelude::*;

verus! {

/// A foreground or background color selector for a cell.
///
/// The eight named colors and their light variants select entries of the
/// terminal's palette, `AnsiValue` selects any of the 256 indexed colors,
/// and `Rgb` is a 24-bit color.
#[derive(Debug, Clone, Copy, PartialEq, Eq, Structural)]
pub enum Color {
    AnsiValue(u8),
    Rgb(u8, u8, u8),
    Black,
    Blue,
    Cyan,
    Green,
    Magenta,
    Red,
    White,
    Yellow,
    LightBlack,
    LightBlue,
    LightCyan,
    LightGreen,
    LightMagenta,
    LightRed,
    LightWhite,
    LightYellow,
}

/// The palette index a color selector stands for, following the
/// conventional ANSI numbering of the named colors; `None` for `Rgb`, which
/// has no palette index.
pub open spec fn palette_index_of(c: Color) -> Option<u8> {
    match c {
        Color::AnsiValue(v) => Some(v),
        Color::Rgb(_, _, _) => None,
        Color::Black => Some(0),
        Color::Red => Some(1),
        Color::Green => Some(2),
        Color::Yellow => Some(3),
        Color::Blue => Some(4),
        Color::Magenta => Some(5),
        Color::Cyan => Some(6),
        Color::White => Some(7),
        Color::LightBlack => Some(8),
        Color::LightRed => Some(9),
        Color::LightGreen => Some(10),
        Color::LightYellow => Some(11),
        Color::LightBlue => Some(12),
        Color::LightMagenta => Some(13),
        Color::LightCyan => Some(14),
        Color::LightWhite => Some(15),
    }
}

impl Color {
    /// The palette index this color stands for: `palette_index_of`, as
    /// executable code.
    pub fn palette_index(&self) -> (r: Option<u8>)
        ensures
            r == palette_index_of(*self),
    {
        match *self {
            Color::AnsiValue(v) => Some(v),
            Color::Rgb(_, _, _) => None,
            Color::Black => Some(0),
            Color::Red => Some(1),
            Color::Green => Some(2),
            Color::Yellow => Some(3),
            Color::Blue => Some(4),
            Color::Magenta => Some(5),
            Color::Cyan => Some(6),
            Color::White => Some(7),
            Color::LightBlack => Some(8),
            Color::LightRed => Some(9),
            Color::LightGreen => Some(10),
            Color::LightYellow => Some(11),
            Color::LightBlue => Some(12),
            Color::LightMagenta => Some(13),
            Color::LightCyan => Some(14),
            Color::LightWhite => Some(15),
        }
    }
}

} // verus!
