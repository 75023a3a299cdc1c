use vstd::prelude::*;
use crate::facing::Facing;

verus! {

/// A cell coordinate on the grid: `x` counts columns, `y` counts rows.
#[derive(Clone, Copy, Debug, PartialEq, Eq, Structural)]
pub struct Coord {
    pub x: u32,
    pub y: u32,
}

/// The player's token: the cell it stands on and the way it faces.
#[derive(Clone, Copy, Debug, PartialEq, Eq, Structural)]
pub struct Position {
    pub position: Coord,
    pub rotation: Facing,
}

impl Coord {
    pub fn new(x: u32, y: u32) -> (r: Coord)
        ensures
            r.x == x,
            r.y == y,
    {
        Coord { x, y }
    }

    /// The coordinate names a cell of a `width` by `height` grid.
    pub open spec fn within(self, width: int, height: int) -> bool {
        self.x < width && self.y < height
    }
}

impl Position {
    /// A token at `(x, y)` facing `Up`.
    pub fn pos(x: u8, y: u8) -> (r: Position)
        ensures
            r.position.x == x,
            r.position.y == y,
            r.rotation == Facing::Up,
    {
        Position { position: Coord { x: x as u32, y: y as u32 }, rotation: Facing::Up }
    }

    /// A token at `(x, y)` with the given facing.
    pub fn new(x: u8, y: u8, rotation: Facing) -> (r: Position)
        ensures
            r.position.x == x,
            r.position.y == y,
            r.rotation == rotation,
    {
        Position { position: Coord { x: x as u32, y: y as u32 }, rotation }
    }
}

} // verus!
