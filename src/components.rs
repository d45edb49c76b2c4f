use vstd::prelude::*;

verus! {

/// Where a cell stands on the screen: `x` is its column, `y` its row.
#[derive(Debug, Clone, Copy, PartialEq, Eq, Structural)]
pub struct Position {
    pub x: u8,
    pub y: u8,
}

/// The image that draws a populated cell.
#[derive(Debug)]
pub struct Renderable {
    pub path: String,
}

} // verus!
