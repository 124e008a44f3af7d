//! The plain screen types the widgets reason about: areas, mouse input,
//! key input and colours.

use vstd::prelude::*;

verus! {

/// A rectangle of terminal cells.
#[derive(Clone, Copy, Debug, PartialEq, Eq, Structural)]
pub struct Rect {
    pub x: u16,
    pub y: u16,
    pub width: u16,
    pub height: u16,
}

impl Rect {
    /// The rectangle ends inside the coordinate range.
    pub open spec fn fits(self) -> bool {
        self.x + self.width <= u16::MAX && self.y + self.height <= u16::MAX
    }

    /// The cell (`column`, `row`) lies inside the rectangle.
    pub open spec fn contains_spec(self, column: u16, row: u16) -> bool {
        self.y <= row < self.y + self.height && self.x <= column < self.x + self.width
    }

    /// Whether the cell (`column`, `row`) lies inside the rectangle.
    pub fn contains(&self, column: u16, row: u16) -> (r: bool)
        ensures
            r == self.contains_spec(column, row),
    {
        (row as u32) >= (self.y as u32) && (row as u32) < self.y as u32 + self.height as u32
            && (column as u32) >= (self.x as u32) && (column as u32) < self.x as u32
            + self.width as u32
    }
}

/// What a mouse event did.
#[derive(Clone, Copy, Debug, PartialEq, Eq, Structural)]
pub enum MouseKind {
    /// The left button went down.
    LeftDown,
    /// Anything else: other buttons, releases, drags, moves and scrolls.
    Other,
}

/// A mouse event at a cell.
#[derive(Clone, Copy, Debug, PartialEq, Eq, Structural)]
pub struct MouseInput {
    pub kind: MouseKind,
    pub column: u16,
    pub row: u16,
}

/// A key press.
#[derive(Clone, Copy, Debug, PartialEq, Eq, Structural)]
pub enum KeyInput {
    Char(char),
    Enter,
    Esc,
    Backspace,
    Other,
}

/// The colours the widgets use.
#[derive(Clone, Copy, Debug, PartialEq, Eq, Structural)]
pub enum Color {
    Green,
    LightGreen,
    Yellow,
    Red,
    LightRed,
    Cyan,
    LightCyan,
    Blue,
    LightBlue,
    Magenta,
    LightMagenta,
    White,
    Gray,
    DarkGray,
}

} // verus!
