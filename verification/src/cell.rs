//! The smallest renderable unit: one display character together with its
//! foreground and background color.

use vstd::prelude::*;

verus! {

/// A terminal color. Equality between two colors is exact structural
/// equality; the diff and the color-change coalescing both depend on it.
///
/// `Reset` stands for the terminal's default color.
#[derive(Clone, Copy, PartialEq, Eq, Structural, Debug)]
pub enum Color {
    Reset,
    Black,
    DarkGrey,
    Red,
    DarkRed,
    Green,
    DarkGreen,
    Yellow,
    DarkYellow,
    Blue,
    DarkBlue,
    Magenta,
    DarkMagenta,
    Cyan,
    DarkCyan,
    White,
    Grey,
    Rgb { r: u8, g: u8, b: u8 },
    AnsiValue(u8),
}

/// One character position's display state: glyph plus both colors.
/// Cells are plain values; they have no identity beyond their grid position.
#[derive(Clone, Copy, PartialEq, Eq, Structural, Debug)]
pub struct Cell {
    pub ch: char,
    pub fg: Color,
    pub bg: Color,
}

impl Cell {
    /// The blank cell: a space in the terminal's default colors.
    pub open spec fn default_spec() -> Cell {
        Cell { ch: ' ', fg: Color::Reset, bg: Color::Reset }
    }
}

impl Default for Cell {
    fn default() -> (c: Cell)
        ensures
            c == Cell::default_spec(),
    {
        Cell { ch: ' ', fg: Color::Reset, bg: Color::Reset }
    }
}

} // verus!
