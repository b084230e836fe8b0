//! Positions in world space, in fixed point.
//!
//! Tiles lie on the lines of whole world units, while a pointer may fall
//! anywhere between them. A coordinate therefore carries a whole number of
//! world units and a fraction of one more, so that "on a line" and "just
//! beside it" stay apart.

use vstd::prelude::*;

verus! {

/// The number of parts that one world unit is divided into.
pub const UNIT: u64 = 0x1_0000_0000;

/// A position along one world axis: `whole + part / UNIT` world units.
///
/// Its view is the position counted in parts, an integer.
#[derive(Clone, Copy, Debug, PartialEq, Eq, Structural)]
pub struct WorldCoord {
    /// The largest whole number of world units not above the position.
    pub whole: i64,
    /// What is left above `whole`, in parts of a unit.
    pub part: u32,
}

impl View for WorldCoord {
    type V = int;

    open spec fn view(&self) -> int {
        self.whole as int * UNIT as int + self.part as int
    }
}

impl WorldCoord {
    /// The position `whole + part / UNIT`.
    pub fn new(whole: i64, part: u32) -> (coord: WorldCoord)
        ensures
            coord.whole == whole,
            coord.part == part,
            coord@ == whole as int * UNIT as int + part as int,
    {
        WorldCoord { whole, part }
    }

    /// The position that lies exactly on the line of `whole` world units.
    pub fn from_units(whole: i64) -> (coord: WorldCoord)
        ensures
            coord.whole == whole,
            coord.part == 0,
            coord@ == whole as int * UNIT as int,
    {
        WorldCoord { whole, part: 0 }
    }

    /// The middle of a stretch that starts at zero and is `length` world
    /// units long.
    pub fn half_of(length: u64) -> (coord: WorldCoord)
        ensures
            2 * coord@ == length as int * UNIT as int,
    {
        let whole: i64 = (length / 2) as i64;
        let part: u32 = if length % 2 == 1 { 0x8000_0000 } else { 0 };
        WorldCoord { whole, part }
    }
}

/// What a [`WorldPoint`] stands for: a place in the plane, both coordinates
/// counted in parts of a world unit.
pub struct Spot {
    pub x: int,
    pub y: int,
}

/// A point of the world plane.
#[derive(Clone, Copy, Debug, PartialEq, Eq, Structural)]
pub struct WorldPoint {
    pub x: WorldCoord,
    pub y: WorldCoord,
}

impl View for WorldPoint {
    type V = Spot;

    open spec fn view(&self) -> Spot {
        Spot { x: self.x@, y: self.y@ }
    }
}

impl WorldPoint {
    /// The point with the given coordinates.
    pub fn new(x: WorldCoord, y: WorldCoord) -> (point: WorldPoint)
        ensures
            point.x == x,
            point.y == y,
            point@ == (Spot { x: x@, y: y@ }),
    {
        WorldPoint { x, y }
    }

    /// The point at whole world units `(x, y)`.
    pub fn from_units(x: i64, y: i64) -> (point: WorldPoint)
        ensures
            point.x == (WorldCoord { whole: x, part: 0 }),
            point.y == (WorldCoord { whole: y, part: 0 }),
            point@ == (Spot { x: x as int * UNIT as int, y: y as int * UNIT as int }),
    {
        WorldPoint { x: WorldCoord::from_units(x), y: WorldCoord::from_units(y) }
    }
}

} // verus!
