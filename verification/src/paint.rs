//! Colors and text styles.
use vstd::prelude::*;

verus! {

/// A color of the terminal.
#[derive(Clone, Copy, Debug, PartialEq, Eq, Structural)]
pub enum Color {
    Black,
    Red,
    Green,
    Yellow,
    Blue,
    Magenta,
    Cyan,
    Gray,
    DarkGray,
    LightRed,
    White,
}

/// How a text is drawn. Without a color the one of the terminal is kept.
#[derive(Clone, Copy, Debug, PartialEq, Eq, Structural)]
pub struct Style {
    pub foreground: Option<Color>,
    pub background: Option<Color>,
    pub bold: bool,
    pub reversed: bool,
}

/// A text as the terminal draws it by itself.
pub open spec fn unstyled() -> Style {
    Style { foreground: None, background: None, bold: false, reversed: false }
}

impl Style {
    /// A text as the terminal draws it by itself.
    pub fn none() -> (style: Self)
        ensures
            style == unstyled(),
    {
        Style { foreground: None, background: None, bold: false, reversed: false }
    }

    /// A text in a color.
    pub fn colored(color: Color) -> (style: Self)
        ensures
            style == (Style { foreground: Some(color), ..unstyled() }),
    {
        Style { foreground: Some(color), background: None, bold: false, reversed: false }
    }
}

} // verus!
