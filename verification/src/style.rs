//! Colours, as plain values that any terminal library can be given.

use vstd::prelude::*;

verus! {

/// A colour of the terminal.
#[derive(Debug, Clone, Copy, PartialEq, Eq, Structural)]
pub enum Color {
    /// The colour that the terminal uses where none is asked for.
    Reset,
    Black,
    Red,
    Green,
    Yellow,
    LightBlue,
    /// A colour given by its red, green and blue parts.
    Rgb(u8, u8, u8),
}

} // verus!
