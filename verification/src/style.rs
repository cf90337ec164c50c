//! Colors, weights and the per-cell style record.

use vstd::prelude::*;

verus! {

/// One of the terminal's eight palette colors, or the terminal default.
#[derive(Default, Debug, Clone, Copy, PartialEq, Eq, Structural)]
pub enum Color {
    Black,
    Red,
    Green,
    Yellow,
    Blue,
    Magenta,
    Cyan,
    White,
    #[default]
    Default,
}

/// The SGR palette digit of a color: indices 0 through 7 for the palette,
/// 9 for the terminal default.
pub open spec fn color_digit(c: Color) -> u8 {
    match c {
        Color::Black => 0,
        Color::Red => 1,
        Color::Green => 2,
        Color::Yellow => 3,
        Color::Blue => 4,
        Color::Magenta => 5,
        Color::Cyan => 6,
        Color::White => 7,
        Color::Default => 9,
    }
}

impl Color {
    /// The digit placed after `3` (foreground) or `4` (background) in an
    /// SGR color code.
    pub fn sgr_digit(&self) -> (r: u8)
        ensures
            r == color_digit(*self),
    {
        match self {
            Color::Black => 0,
            Color::Red => 1,
            Color::Green => 2,
            Color::Yellow => 3,
            Color::Blue => 4,
            Color::Magenta => 5,
            Color::Cyan => 6,
            Color::White => 7,
            Color::Default => 9,
        }
    }
}

/// The default style: both colors at the terminal default, normal weight,
/// no underline.
pub open spec fn style_default() -> Style {
    Style { fg: Color::Default, bg: Color::Default, weight: Weight::Normal, underline: false }
}

/// The rendering weight of a cell's character.
#[derive(Default, Debug, Clone, Copy, PartialEq, Eq, Structural)]
pub enum Weight {
    #[default]
    Normal,
    Bold,
    Dim,
}

/// How one cell is rendered: colors, weight and underlining.
#[derive(Default, Debug, Clone, Copy, PartialEq, Eq, Structural)]
pub struct Style {
    pub fg: Color,
    pub bg: Color,
    pub weight: Weight,
    pub underline: bool,
}

impl Style {
    /// The default style: both colors at the terminal default, normal
    /// weight, no underline.
    pub fn new() -> (r: Self)
        ensures
            r == style_default(),
    {
        Self { fg: Color::Default, bg: Color::Default, weight: Weight::Normal, underline: false }
    }

    pub fn with_fg(self, fg: Color) -> (r: Self)
        ensures
            r == (Style { fg, ..self }),
    {
        Self { fg, ..self }
    }

    pub fn with_bg(self, bg: Color) -> (r: Self)
        ensures
            r == (Style { bg, ..self }),
    {
        Self { bg, ..self }
    }

    pub fn with_weight(self, weight: Weight) -> (r: Self)
        ensures
            r == (Style { weight, ..self }),
    {
        Self { weight, ..self }
    }

    pub fn with_underline(self, underline: bool) -> (r: Self)
        ensures
            r == (Style { underline, ..self }),
    {
        Self { underline, ..self }
    }
}

} // verus!
