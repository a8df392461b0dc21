//! Terminal colours and text styles: the named colours of the palette, and a
//! style as a foreground, a background and a set of added modifiers.
use vstd::prelude::*;

verus! {

/// A colour of the terminal palette.
#[derive(Clone, Copy, PartialEq, Eq, Hash, Debug, Structural)]
pub enum Color {
    Reset,
    Black,
    Red,
    Green,
    Yellow,
    Blue,
    Magenta,
    Cyan,
    Gray,
    DarkGray,
    LightRed,
    LightGreen,
    LightYellow,
    LightBlue,
    LightMagenta,
    LightCyan,
    White,
}

/// Bold text.
pub const BOLD: u16 = 1;

/// Dim text.
pub const DIM: u16 = 2;

/// Underlined text.
pub const UNDERLINED: u16 = 8;

/// Reversed foreground and background.
pub const REVERSED: u16 = 64;

/// A text style: optional foreground and background colours and the
/// modifier bits it adds.
#[derive(Clone, Copy, PartialEq, Eq, Debug, Structural)]
pub struct Style {
    pub fg: Option<Color>,
    pub bg: Option<Color>,
    pub add_modifier: u16,
}

/// The style that changes nothing.
pub open spec fn plain() -> Style {
    Style { fg: None, bg: None, add_modifier: 0 }
}

/// `s` with foreground `c`.
pub open spec fn with_fg(s: Style, c: Color) -> Style {
    Style { fg: Some(c), ..s }
}

/// `s` with background `c`.
pub open spec fn with_bg(s: Style, c: Color) -> Style {
    Style { bg: Some(c), ..s }
}

/// `s` with the modifier bits `m` added.
pub open spec fn with_mod(s: Style, m: u16) -> Style {
    Style { add_modifier: s.add_modifier | m, ..s }
}

impl Style {
    /// The style that changes nothing (`Style::default()`).
    pub fn new() -> (r: Style)
        ensures
            r == plain(),
    {
        Style { fg: None, bg: None, add_modifier: 0 }
    }

    /// This style with foreground `c`.
    pub fn fg(self, c: Color) -> (r: Style)
        ensures
            r == with_fg(self, c),
    {
        Style { fg: Some(c), ..self }
    }

    /// This style with background `c`.
    pub fn bg(self, c: Color) -> (r: Style)
        ensures
            r == with_bg(self, c),
    {
        Style { bg: Some(c), ..self }
    }

    /// This style with the modifier bits `m` added.
    pub fn add_modifier(self, m: u16) -> (r: Style)
        ensures
            r == with_mod(self, m),
    {
        Style { add_modifier: self.add_modifier | m, ..self }
    }
}

impl Default for Style {
    fn default() -> (r: Style)
        ensures
            r == plain(),
    {
        Style::new()
    }
}

} // verus!
