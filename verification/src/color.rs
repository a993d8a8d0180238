//! Terminal colours.

use vstd::prelude::*;

verus! {

/// A colour a screen cell can have.
#[derive(Clone, Copy, Debug, PartialEq, Eq, Structural)]
pub enum Color {
    /// Whatever the screen's own colour is.
    Reset,
    Black,
    Red,
    Green,
    Yellow,
    Blue,
    Magenta,
    Cyan,
    Gray,
    DarkGray,
    LightRed,
    LightGreen,
    LightYellow,
    LightBlue,
    LightMagenta,
    LightCyan,
    White,
    /// An entry of the 256-colour palette.
    Indexed(u8),
    Rgb(u8, u8, u8),
}

} // verus!
