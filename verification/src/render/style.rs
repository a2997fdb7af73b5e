//! Text styles for rendered lines: a foreground colour and boldness (the
//! part of a terminal style the renderer sets).

use vstd::prelude::*;

verus! {

/// The palette colours the renderer uses.
#[derive(Debug, Clone, Copy, PartialEq, Eq, Structural)]
pub enum Color {
    Yellow,
    DarkGray,
    Red,
    Green,
    Cyan,
    Magenta,
    Blue,
    LightCyan,
    LightBlue,
    Gray,
    LightYellow,
}

/// A text style: an optional foreground colour and boldness.
#[derive(Debug, Clone, Copy, PartialEq, Eq, Structural)]
pub struct Style {
    pub fg: Option<Color>,
    pub bold: bool,
}

/// The default style: no colour, not bold.
pub open spec fn plain_style() -> Style {
    Style { fg: None, bold: false }
}

/// A style with the given foreground colour.
pub open spec fn fg_style(c: Color) -> Style {
    Style { fg: Some(c), bold: false }
}

impl Style {
    /// The default style: no colour, not bold.
    pub fn plain() -> (r: Style)
        ensures
            r == plain_style(),
    {
        Style { fg: None, bold: false }
    }

    /// A style with the given foreground colour.
    pub fn with_fg(c: Color) -> (r: Style)
        ensures
            r == fg_style(c),
    {
        Style { fg: Some(c), bold: false }
    }

    /// This style, bold.
    pub fn bolded(self) -> (r: Style)
        ensures
            r == (Style { fg: self.fg, bold: true }),
    {
        Style { fg: self.fg, bold: true }
    }
}

} // verus!
