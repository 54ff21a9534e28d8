//! Map coordinates.
use vstd::prelude::*;

verus! {

/// A grid position.
#[derive(PartialEq, Eq, Hash, Debug, Clone, Copy, Structural)]
pub struct Coord {
    pub x: i32,
    pub y: i32,
}

impl Coord {
    pub fn new(x: i32, y: i32) -> (c: Self)
        ensures
            c == (Coord { x, y }),
    {
        Self { x, y }
    }
}

/// A position with a secondary coordinate that starts at the origin.
#[derive(PartialEq, Eq, Debug, Clone, Copy, Structural)]
pub struct Coord2d {
    pub x: i32,
    pub y: i32,
    pub z: Coord,
}

impl Coord2d {
    pub fn new(x: i32, y: i32) -> (c: Self)
        ensures
            c == (Coord2d { x, y, z: Coord { x: 0, y: 0 } }),
    {
        Self { x, y, z: Coord::new(0, 0) }
    }
}

} // verus!
