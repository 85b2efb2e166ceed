use vstd::prelude::*;

verus! {

/// The set of text attributes carried by one cell.
///
/// The attributes form a small fixed set, so they are kept as a bitset:
/// adding an attribute is a bitwise or, and asking for one is a mask test.
/// `bits` holds one bit per attribute; bits outside the named ones mean
/// nothing and are ignored when the style is written out.
#[derive(Debug, Clone, Copy, PartialEq, Eq, Structural)]
pub struct Style {
    /// The raw attribute bits.
    pub bits: u16,
}

impl Style {
    /// The style with no attribute set.
    pub fn empty() -> (r: Style)
        ensures
            r.bits == 0,
    {
        Style { bits: 0 }
    }

    /// Blinking text.
    pub fn blink() -> (r: Style)
        ensures
            r.bits == 0x1,
    {
        Style { bits: 0x1 }
    }

    /// Bold text.
    pub fn bold() -> (r: Style)
        ensures
            r.bits == 0x2,
    {
        Style { bits: 0x2 }
    }

    /// Crossed-out text.
    pub fn crossed_out() -> (r: Style)
        ensures
            r.bits == 0x4,
    {
        Style { bits: 0x4 }
    }

    /// Faint text.
    pub fn faint() -> (r: Style)
        ensures
            r.bits == 0x8,
    {
        Style { bits: 0x8 }
    }

    /// Framed text.
    pub fn framed() -> (r: Style)
        ensures
            r.bits == 0x10,
    {
        Style { bits: 0x10 }
    }

    /// Inverted colors.
    pub fn invert() -> (r: Style)
        ensures
            r.bits == 0x20,
    {
        Style { bits: 0x20 }
    }

    /// Italic text.
    pub fn italic() -> (r: Style)
        ensures
            r.bits == 0x40,
    {
        Style { bits: 0x40 }
    }

    /// Underlined text.
    pub fn underline() -> (r: Style)
        ensures
            r.bits == 0x80,
    {
        Style { bits: 0x80 }
    }

    /// Reset of all attributes.
    pub fn reset() -> (r: Style)
        ensures
            r.bits == 0x100,
    {
        Style { bits: 0x100 }
    }

    /// The union of two attribute sets.
    pub fn union(self, other: Style) -> (r: Style)
        ensures
            r.bits == self.bits | other.bits,
    {
        Style { bits: self.bits | other.bits }
    }

    /// Whether every attribute of `other` is also in `self`.
    pub fn contains(self, other: Style) -> (r: bool)
        ensures
            r == (self.bits & other.bits == other.bits),
    {
        self.bits & other.bits == other.bits
    }
}

/// The style that results from adding `extra` to an optional accumulated
/// style: the union with the old set, or `extra` alone when none was set.
pub open spec fn style_added(old_style: Option<Style>, extra: Style) -> Style {
    match old_style {
        Some(t) => (Style { bits: t.bits | extra.bits }),
        None => extra,
    }
}

} // verus!
