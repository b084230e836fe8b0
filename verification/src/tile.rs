//! One cell of the field: its place in the grid and its rectangle in the world.

use vstd::prelude::*;
use crate::coord::{Spot, WorldPoint, UNIT};
use crate::stack::{Layer, TileStack, BASE_DEPTH, MARKER_DEPTH, VISUAL_INSET};

verus! {

/// What a [`Tile`] stands for. Grid positions count rows and columns; world
/// positions and extents count whole world units.
pub struct TileModel {
    /// `(row, column)` in the grid.
    pub grid_position: (nat, nat),
    /// `(x, y)` of the lower left corner.
    pub world_position: (nat, nat),
    /// `(width, height)`.
    pub world_extent: (nat, nat),
    pub walkable: bool,
    pub layers: Seq<Layer>,
}

impl TileModel {
    /// The line of the left edge, in parts of a world unit.
    pub open spec fn left(self) -> int {
        self.world_position.0 * UNIT
    }

    /// The line of the right edge.
    pub open spec fn right(self) -> int {
        (self.world_position.0 + self.world_extent.0) * UNIT
    }

    /// The line of the lower edge.
    pub open spec fn bottom(self) -> int {
        self.world_position.1 * UNIT
    }

    /// The line of the upper edge.
    pub open spec fn top(self) -> int {
        (self.world_position.1 + self.world_extent.1) * UNIT
    }

    /// The point lies inside the tile's rectangle and on none of its edges.
    pub open spec fn covers(self, p: Spot) -> bool {
        &&& self.left() < p.x < self.right()
        &&& self.bottom() < p.y < self.top()
    }

    /// The layer that shows `sprite` on this tile at depth `z`: it is set in
    /// from the tile's corner by the visual inset.
    pub open spec fn visual(self, sprite: usize, z: i32) -> Layer {
        Layer {
            sprite,
            x: (self.world_position.0 + VISUAL_INSET) as u64,
            y: (self.world_position.1 + VISUAL_INSET) as u64,
            z,
        }
    }

    /// The tile as it is when the field is laid out: walkable, and showing
    /// its base sprite only.
    pub open spec fn fresh(row: nat, col: nat, tile_w: nat, tile_h: nat, base_sprite: usize) -> TileModel {
        let bare = TileModel {
            grid_position: (row, col),
            world_position: (col * tile_w, row * tile_h),
            world_extent: (tile_w, tile_h),
            walkable: true,
            layers: Seq::empty(),
        };
        TileModel { layers: seq![bare.visual(base_sprite, BASE_DEPTH)], ..bare }
    }

    /// The tile with one more marker laid on its stack.
    pub open spec fn marked(self, sprite: usize) -> TileModel {
        TileModel { layers: self.layers.push(self.visual(sprite, MARKER_DEPTH)), ..self }
    }

    /// The tile stands at `(row, col)` of a field whose tiles measure
    /// `tile_w` by `tile_h`, and its rectangle is where that position puts it.
    pub open spec fn placed(self, row: int, col: int, tile_w: nat, tile_h: nat) -> bool {
        &&& self.grid_position.0 == row
        &&& self.grid_position.1 == col
        &&& self.world_position.0 == col * tile_w
        &&& self.world_position.1 == row * tile_h
        &&& self.world_extent == (tile_w, tile_h)
    }

    /// The stack starts with the base sprite, and whatever lies over it is
    /// set at the tile's own place, at the depth of a marker.
    pub open spec fn well_stacked(self, base_sprite: usize) -> bool {
        &&& self.layers.len() >= 1
        &&& self.layers[0] == self.visual(base_sprite, BASE_DEPTH)
        &&& forall|k: int|
            1 <= k < self.layers.len() ==> {
                &&& (#[trigger] self.layers[k]).x == self.visual(base_sprite, MARKER_DEPTH).x
                &&& self.layers[k].y == self.visual(base_sprite, MARKER_DEPTH).y
                &&& self.layers[k].z == MARKER_DEPTH
            }
    }

    /// The point lies on one of the four lines that bound the rectangle.
    pub open spec fn on_edge_line(self, p: Spot) -> bool {
        ||| p.x == self.left()
        ||| p.x == self.right()
        ||| p.y == self.bottom()
        ||| p.y == self.top()
    }

    /// The point lies beyond one of the four lines that bound the rectangle.
    pub open spec fn beyond_edge_line(self, p: Spot) -> bool {
        ||| p.x < self.left()
        ||| p.x > self.right()
        ||| p.y < self.bottom()
        ||| p.y > self.top()
    }
}

/// A cell of the field.
///
/// The rectangle of a tile reaches from `world_position` over `world_extent`;
/// its edges do not belong to it.
#[derive(Debug)]
pub struct Tile {
    /// `(row, column)` in the grid.
    pub grid_position: (u32, u32),
    /// `(x, y)` of the lower left corner, in whole world units.
    pub world_position: (u64, u64),
    /// `(width, height)`, in whole world units.
    pub world_extent: (u32, u32),
    /// Whether a piece may step on the tile.
    pub walkable: bool,
    /// What is drawn on the tile.
    pub stack: TileStack,
}

impl View for Tile {
    type V = TileModel;

    open spec fn view(&self) -> TileModel {
        TileModel {
            grid_position: (self.grid_position.0 as nat, self.grid_position.1 as nat),
            world_position: (self.world_position.0 as nat, self.world_position.1 as nat),
            world_extent: (self.world_extent.0 as nat, self.world_extent.1 as nat),
            walkable: self.walkable,
            layers: self.stack@,
        }
    }
}

impl Tile {
    /// Tells whether `point` lies inside the tile. A point on an edge lies in
    /// no tile, so two neighbours never both hold one point.
    pub fn contains(&self, point: WorldPoint) -> (inside: bool)
        ensures
            inside == self@.covers(point@),
    {
        let left: i128 = self.world_position.0 as i128;
        let right: i128 = left + self.world_extent.0 as i128;
        let bottom: i128 = self.world_position.1 as i128;
        let top: i128 = bottom + self.world_extent.1 as i128;
        let x: i128 = point.x.whole as i128;
        let y: i128 = point.y.whole as i128;
        (left < x || (left == x && point.x.part > 0)) && x < right
            && (bottom < y || (bottom == y && point.y.part > 0)) && y < top
    }
}

/// A point on an edge line of a tile is not inside it, a point beyond an edge
/// line is not inside it, and every other point is.
pub proof fn boundary_exclusive(tile: TileModel, p: Spot)
    ensures
        tile.on_edge_line(p) ==> !tile.covers(p),
        tile.beyond_edge_line(p) ==> !tile.covers(p),
        !tile.on_edge_line(p) && !tile.beyond_edge_line(p) ==> tile.covers(p),
{
}

} // verus!
