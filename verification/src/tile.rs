//! One grid cell's traversal and visibility descriptor, and the plain
//! color triple used when cells and glyphs are drawn.
use vstd::prelude::*;

verus! {

/// An RGB color triple.
#[derive(Clone, Copy, Debug, PartialEq, Eq, Structural)]
pub struct Rgb {
    pub r: u8,
    pub g: u8,
    pub b: u8,
}

/// One cell of the grid: whether it can be stepped on, and whether it
/// is rendered with the wall background.
#[derive(Clone, Copy, Debug, PartialEq, Eq, Structural)]
pub struct Tile {
    pub blocked: bool,
    pub block_sight: bool,
}

/// The open-floor tile: passable and see-through.
pub open spec fn ground_tile() -> Tile {
    Tile { blocked: false, block_sight: false }
}

/// The wall tile: impassable and sight-blocking.
pub open spec fn wall_tile() -> Tile {
    Tile { blocked: true, block_sight: true }
}

impl Tile {
    /// A passable, see-through floor cell.
    pub fn ground() -> (t: Tile)
        ensures
            t == ground_tile(),
    {
        Tile { blocked: false, block_sight: false }
    }

    /// An impassable, sight-blocking wall cell.
    pub fn wall() -> (t: Tile)
        ensures
            t == wall_tile(),
    {
        Tile { blocked: true, block_sight: true }
    }
}

} // verus!
