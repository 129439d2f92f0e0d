use vstd::prelude::*;

use crate::color::Rgb;

verus! {

/// How a drawn cell looks.
#[derive(Clone, Copy, Debug, PartialEq, Eq, Structural)]
pub enum Style {
    /// The head of a rain column: bold, in the given color.
    Head(Rgb),
    /// A trail cell behind the head, in the given color.
    Trail(Rgb),
    /// A cell of the frame around the target.
    Frame,
    /// A revealed target cell: bold and bright.
    Revealed,
    /// A target cell not yet revealed: dim.
    Hidden,
}

/// One character to put at a viewport position.
#[derive(Clone, Copy, Debug, PartialEq, Eq, Structural)]
pub struct Draw {
    pub x: u16,
    pub y: u16,
    /// The character, as its Unicode scalar value.
    pub ch: u32,
    pub style: Style,
}

} // verus!
