//! The field: all tiles of the game, laid out once and never resized.

use vstd::prelude::*;
use vstd::arithmetic::div_mod::{lemma_fundamental_div_mod, lemma_fundamental_div_mod_converse};
use crate::coord::{Spot, WorldPoint};
use crate::error::ConfigurationError;
use crate::lattice::{cell_index, cell_of, lemma_cell_of};
use crate::stack::{Layer, TileStack, BASE_DEPTH, MARKER_DEPTH, VISUAL_INSET};
use crate::tile::{Tile, TileModel};

verus! {

/// What a [`Grid`] stands for: its extent, the size of a tile, the sprite
/// that every tile starts with, and the tiles row after row.
pub struct GridModel {
    pub rows: nat,
    pub cols: nat,
    pub tile_w: nat,
    pub tile_h: nat,
    pub base_sprite: usize,
    pub tiles: Seq<TileModel>,
}

/// A marker that was laid on a tile.
#[derive(Clone, Copy, Debug, PartialEq, Eq, Structural)]
pub struct Selection {
    /// The row of the tile that holds the point.
    pub row: u32,
    /// Its column.
    pub col: u32,
    /// The layer that was put on its stack.
    pub layer: Layer,
}

impl GridModel {
    /// Every grid position holds exactly one tile, which stands where its
    /// position puts it and whose stack is in order.
    pub open spec fn wf(self) -> bool {
        &&& 0 < self.rows <= u32::MAX
        &&& 0 < self.cols <= u32::MAX
        &&& self.tile_w <= u32::MAX
        &&& self.tile_h <= u32::MAX
        &&& self.tiles.len() == self.rows * self.cols
        &&& forall|i: int|
            0 <= i < self.tiles.len() ==> {
                &&& (#[trigger] self.tiles[i]).placed(
                    i / (self.cols as int),
                    i % (self.cols as int),
                    self.tile_w,
                    self.tile_h,
                )
                &&& self.tiles[i].well_stacked(self.base_sprite)
            }
    }

    /// The field as it is laid out at the start.
    pub open spec fn fresh(rows: nat, cols: nat, tile_w: nat, tile_h: nat, base_sprite: usize) -> GridModel {
        GridModel {
            rows,
            cols,
            tile_w,
            tile_h,
            base_sprite,
            tiles: Seq::new(
                rows * cols,
                |i: int|
                    TileModel::fresh(
                        (i / (cols as int)) as nat,
                        (i % (cols as int)) as nat,
                        tile_w,
                        tile_h,
                        base_sprite,
                    ),
            ),
        }
    }

    /// `(row, col)` is a position of the field.
    pub open spec fn in_range(self, row: int, col: int) -> bool {
        0 <= row < self.rows && 0 <= col < self.cols
    }

    /// Where the tile at `(row, col)` stands in `tiles`.
    pub open spec fn index(self, row: int, col: int) -> int {
        row * self.cols + col
    }

    /// The tile at `(row, col)`.
    pub open spec fn tile(self, row: int, col: int) -> TileModel {
        self.tiles[self.index(row, col)]
    }

    /// The tile whose rectangle holds `p`, by its place in `tiles`.
    pub open spec fn containing(self, p: Spot) -> Option<int> {
        if exists|i: int| 0 <= i < self.tiles.len() && (#[trigger] self.tiles[i]).covers(p) {
            Some(choose|i: int| 0 <= i < self.tiles.len() && (#[trigger] self.tiles[i]).covers(p))
        } else {
            None
        }
    }

    /// The field after `p` was selected: the tile that holds `p` has one more
    /// marker, and nothing else differs. Where no tile holds `p`, nothing
    /// differs at all.
    pub open spec fn select(self, p: Spot, sprite: usize) -> GridModel {
        match self.containing(p) {
            Some(i) => GridModel { tiles: self.tiles.update(i, self.tiles[i].marked(sprite)), ..self },
            None => self,
        }
    }

    /// The field with the tile at `(row, col)` made walkable or not; the
    /// field itself where it has no such tile.
    pub open spec fn with_walkable(self, row: int, col: int, walkable: bool) -> GridModel {
        if self.in_range(row, col) {
            let i = self.index(row, col);
            GridModel { tiles: self.tiles.update(i, TileModel { walkable, ..self.tiles[i] }), ..self }
        } else {
            self
        }
    }

    /// What selecting `p` reports: the tile that holds `p` and the marker laid
    /// on it.
    pub open spec fn selection(self, p: Spot, sprite: usize) -> Option<Selection> {
        match self.containing(p) {
            Some(i) => Some(
                Selection {
                    row: self.tiles[i].grid_position.0 as u32,
                    col: self.tiles[i].grid_position.1 as u32,
                    layer: self.tiles[i].visual(sprite, MARKER_DEPTH),
                },
            ),
            None => None,
        }
    }
}

/// A position and its place in the row-after-row order determine each other.
pub proof fn lemma_index_round_trip(row: int, col: int, cols: int)
    requires
        0 <= col < cols,
    ensures
        (row * cols + col) / cols == row,
        (row * cols + col) % cols == col,
{
    lemma_fundamental_div_mod_converse(row * cols + col, cols, row, col);
}

/// The places in `tiles` are exactly those of the positions in range.
pub proof fn lemma_index_in_range(row: int, col: int, rows: int, cols: int)
    requires
        0 <= row < rows,
        0 <= col < cols,
    ensures
        0 <= row * cols + col < rows * cols,
{
    assert(0 <= row * cols && (row + 1) * cols <= rows * cols) by (nonlinear_arith)
        requires
            0 <= row < rows,
            0 < cols,
    ;
    assert((row + 1) * cols == row * cols + cols) by (nonlinear_arith);
}

/// A product of two 32-bit factors leaves room for the visual inset.
proof fn lemma_anchor_fits(a: int, b: int)
    requires
        0 <= a <= u32::MAX,
        0 <= b <= u32::MAX,
    ensures
        0 <= a * b,
        a * b + VISUAL_INSET <= u64::MAX,
{
    assert(0 <= a * b <= 0xffff_ffff * 0xffff_ffff) by (nonlinear_arith)
        requires
            0 <= a <= 0xffff_ffff,
            0 <= b <= 0xffff_ffff,
    ;
}

/// In a field that is in order, a tile holds a point exactly when the
/// point's cell along x is the tile's column and its cell along y is the
/// tile's row.
pub proof fn lemma_covers_is_cellwise(g: GridModel, p: Spot, i: int)
    requires
        g.wf(),
        0 <= i < g.tiles.len(),
    ensures
        g.tiles[i].covers(p) <==> {
            &&& cell_of(p.x, g.tile_w) == Some(i % (g.cols as int))
            &&& cell_of(p.y, g.tile_h) == Some(i / (g.cols as int))
        },
{
    lemma_cell_of(p.x, g.tile_w, i % (g.cols as int));
    lemma_cell_of(p.y, g.tile_h, i / (g.cols as int));
}

/// Tiles do not overlap: no point lies in two tiles.
pub proof fn lemma_one_tile_per_point(g: GridModel, p: Spot, i: int, j: int)
    requires
        g.wf(),
        0 <= i < g.tiles.len(),
        0 <= j < g.tiles.len(),
        g.tiles[i].covers(p),
        g.tiles[j].covers(p),
    ensures
        i == j,
{
    lemma_covers_is_cellwise(g, p, i);
    lemma_covers_is_cellwise(g, p, j);
    lemma_fundamental_div_mod(i, g.cols as int);
    lemma_fundamental_div_mod(j, g.cols as int);
}

/// Which tile holds a point, told by the point's cells: the tile at
/// `(row, col)` where `row` is the cell along y and `col` the cell along x,
/// if both are in range, and none otherwise.
pub proof fn lemma_containing_is_cellwise(g: GridModel, p: Spot)
    requires
        g.wf(),
    ensures
        match g.containing(p) {
            Some(i) => {
                &&& 0 <= i < g.tiles.len()
                &&& g.tiles[i].covers(p)
                &&& cell_of(p.x, g.tile_w) == Some(i % (g.cols as int))
                &&& cell_of(p.y, g.tile_h) == Some(i / (g.cols as int))
            },
            None => !(cell_of(p.x, g.tile_w) matches Some(col) && cell_of(p.y, g.tile_h) matches Some(row)
                && g.in_range(row, col)),
        },
{
    match g.containing(p) {
        Some(i) => {
            lemma_covers_is_cellwise(g, p, i);
        },
        None => {
            if cell_of(p.x, g.tile_w) is Some && cell_of(p.y, g.tile_h) is Some && g.in_range(
                cell_of(p.y, g.tile_h)->0,
                cell_of(p.x, g.tile_w)->0,
            ) {
                let row: int = cell_of(p.y, g.tile_h)->0;
                let col: int = cell_of(p.x, g.tile_w)->0;
                let i: int = g.index(row, col);
                lemma_index_in_range(row, col, g.rows as int, g.cols as int);
                lemma_index_round_trip(row, col, g.cols as int);
                lemma_covers_is_cellwise(g, p, i);
            }
        },
    }
}

/// The tile at place `i` is the one that holds `p`, if it holds `p` at all.
pub proof fn lemma_containing_is(g: GridModel, p: Spot, i: int)
    requires
        g.wf(),
        0 <= i < g.tiles.len(),
        g.tiles[i].covers(p),
    ensures
        g.containing(p) == Some(i),
{
    let j: int = g.containing(p)->0;
    lemma_one_tile_per_point(g, p, i, j);
}

/// Selecting a point leaves the field in order.
pub proof fn lemma_select_keeps_wf(g: GridModel, p: Spot, sprite: usize)
    requires
        g.wf(),
    ensures
        g.select(p, sprite).wf(),
{
    lemma_containing_is_cellwise(g, p);
}

/// The field.
///
/// Its view is a [`GridModel`].
#[derive(Debug)]
pub struct Grid {
    rows: u32,
    cols: u32,
    tile_size: (u32, u32),
    base_sprite: usize,
    tiles: Vec<Tile>,
}

impl View for Grid {
    type V = GridModel;

    closed spec fn view(&self) -> GridModel {
        GridModel {
            rows: self.rows as nat,
            cols: self.cols as nat,
            tile_w: self.tile_size.0 as nat,
            tile_h: self.tile_size.1 as nat,
            base_sprite: self.base_sprite,
            tiles: Seq::new(self.tiles@.len(), |i: int| self.tiles@[i]@),
        }
    }
}

impl Grid {
    /// Lays out a field of `extent.0` rows and `extent.1` columns whose tiles
    /// measure `tile_size.0` by `tile_size.1` world units. The tile at
    /// `(row, col)` has its lower left corner at
    /// `(col * tile_size.0, row * tile_size.1)` and shows `base_sprite_id`.
    ///
    /// A field without rows or without columns is refused.
    pub fn build(
        extent: (u32, u32),
        tile_size: (u32, u32),
        base_sprite_id: usize,
    ) -> (built: Result<Grid, ConfigurationError>)
        ensures
            built is Err <==> extent.0 == 0 || extent.1 == 0,
            built matches Err(e) ==> e == ConfigurationError::InvalidExtent,
            built matches Ok(grid) ==> {
                &&& grid@.wf()
                &&& grid@ == GridModel::fresh(
                    extent.0 as nat,
                    extent.1 as nat,
                    tile_size.0 as nat,
                    tile_size.1 as nat,
                    base_sprite_id,
                )
            },
    {
        let rows: u32 = extent.0;
        let cols: u32 = extent.1;
        if rows == 0 || cols == 0 {
            return Err(ConfigurationError::InvalidExtent);
        }
        let ghost model = GridModel::fresh(
            rows as nat,
            cols as nat,
            tile_size.0 as nat,
            tile_size.1 as nat,
            base_sprite_id,
        );
        let mut tiles: Vec<Tile> = Vec::new();
        let mut row: u32 = 0;
        while row < rows
            invariant
                0 < cols,
                row <= rows,
                tiles@.len() == row * cols,
                forall|i: int| 0 <= i < tiles@.len() ==> (#[trigger] tiles@[i])@ == model.tiles[i],
                model == GridModel::fresh(
                    rows as nat,
                    cols as nat,
                    tile_size.0 as nat,
                    tile_size.1 as nat,
                    base_sprite_id,
                ),
            decreases rows - row,
        {
            let mut col: u32 = 0;
            while col < cols
                invariant
                    0 < cols,
                    row < rows,
                    col <= cols,
                    tiles@.len() == row * cols + col,
                    forall|i: int| 0 <= i < tiles@.len() ==> (#[trigger] tiles@[i])@ == model.tiles[i],
                    model == GridModel::fresh(
                        rows as nat,
                        cols as nat,
                        tile_size.0 as nat,
                        tile_size.1 as nat,
                        base_sprite_id,
                    ),
                decreases cols - col,
            {
                proof {
                    lemma_anchor_fits(col as int, tile_size.0 as int);
                    lemma_anchor_fits(row as int, tile_size.1 as int);
                    lemma_index_round_trip(row as int, col as int, cols as int);
                    lemma_index_in_range(row as int, col as int, rows as int, cols as int);
                }
                let x: u64 = col as u64 * tile_size.0 as u64;
                let y: u64 = row as u64 * tile_size.1 as u64;
                let base = Layer { sprite: base_sprite_id, x: x + VISUAL_INSET, y: y + VISUAL_INSET, z: BASE_DEPTH };
                let tile = Tile {
                    grid_position: (row, col),
                    world_position: (x, y),
                    world_extent: tile_size,
                    walkable: true,
                    stack: TileStack::new(base),
                };
                tiles.push(tile);
                col = col + 1;
            }
            assert((row + 1) * cols == row * cols + cols) by (nonlinear_arith);
            row = row + 1;
        }
        let grid = Grid { rows, cols, tile_size, base_sprite: base_sprite_id, tiles };
        proof {
            assert(grid@.tiles =~= model.tiles);
            lemma_fresh_is_wf(rows as nat, cols as nat, tile_size.0 as nat, tile_size.1 as nat, base_sprite_id);
        }
        Ok(grid)
    }

    /// The number of rows.
    pub fn rows(&self) -> (rows: u32)
        ensures
            rows == self@.rows,
    {
        self.rows
    }

    /// The number of columns.
    pub fn cols(&self) -> (cols: u32)
        ensures
            cols == self@.cols,
    {
        self.cols
    }

    /// Width and height of a tile, in whole world units.
    pub fn tile_size(&self) -> (size: (u32, u32))
        ensures
            size.0 == self@.tile_w,
            size.1 == self@.tile_h,
    {
        self.tile_size
    }

    /// Width and height of the whole field, in whole world units.
    pub fn arena_extent(&self) -> (extent: (u64, u64))
        requires
            self@.wf(),
        ensures
            extent.0 == self@.cols * self@.tile_w,
            extent.1 == self@.rows * self@.tile_h,
    {
        proof {
            lemma_anchor_fits(self.cols as int, self.tile_size.0 as int);
            lemma_anchor_fits(self.rows as int, self.tile_size.1 as int);
        }
        (self.cols as u64 * self.tile_size.0 as u64, self.rows as u64 * self.tile_size.1 as u64)
    }

    /// The tile at `grid_position`, given as `(row, column)`, if the field
    /// has one there.
    pub fn tile_at(&self, grid_position: (u32, u32)) -> (found: Option<&Tile>)
        requires
            self@.wf(),
        ensures
            found is Some <==> self@.in_range(grid_position.0 as int, grid_position.1 as int),
            found matches Some(tile) ==> {
                &&& tile@ == self@.tile(grid_position.0 as int, grid_position.1 as int)
                &&& tile.grid_position == grid_position
                &&& tile.world_position.0 == grid_position.1 * self@.tile_w
                &&& tile.world_position.1 == grid_position.0 * self@.tile_h
                &&& tile.world_extent.0 == self@.tile_w
                &&& tile.world_extent.1 == self@.tile_h
            },
    {
        let (row, col) = grid_position;
        if row >= self.rows || col >= self.cols {
            return None;
        }
        proof {
            lemma_index_in_range(row as int, col as int, self.rows as int, self.cols as int);
            lemma_index_round_trip(row as int, col as int, self.cols as int);
            assert(self.tiles.len() == self.rows * self.cols);
        }
        let index: usize = row as usize * self.cols as usize + col as usize;
        let tile: &Tile = &self.tiles[index];
        Some(tile)
    }

    /// Where in `tiles` the tile stands that holds `point`.
    fn find_index(&self, point: WorldPoint) -> (found: Option<usize>)
        requires
            self@.wf(),
        ensures
            found matches Some(i) ==> self@.containing(point@) == Some(i as int),
            found is None ==> self@.containing(point@) is None,
    {
        proof {
            lemma_containing_is_cellwise(self@, point@);
        }
        let col: u64 = match cell_index(point.x, self.tile_size.0) {
            Some(k) => k,
            None => {
                return None;
            },
        };
        let row: u64 = match cell_index(point.y, self.tile_size.1) {
            Some(k) => k,
            None => {
                return None;
            },
        };
        if row >= self.rows as u64 || col >= self.cols as u64 {
            proof {
                if self@.containing(point@) is Some {
                    let i: int = self@.containing(point@)->0;
                    lemma_fundamental_div_mod(i, self.cols as int);
                    assert(i / (self.cols as int) < self.rows) by (nonlinear_arith)
                        requires
                            i == (self.cols as int) * (i / (self.cols as int)) + i % (self.cols as int),
                            0 <= i % (self.cols as int),
                            i < self.rows * self.cols,
                            0 < self.cols,
                    ;
                }
            }
            return None;
        }
        proof {
            lemma_index_in_range(row as int, col as int, self.rows as int, self.cols as int);
            lemma_index_round_trip(row as int, col as int, self.cols as int);
            assert(self.tiles.len() == self.rows * self.cols);
        }
        let index: usize = row as usize * self.cols as usize + col as usize;
        proof {
            lemma_covers_is_cellwise(self@, point@, index as int);
            lemma_containing_is(self@, point@, index as int);
        }
        Some(index)
    }

    /// The tile whose rectangle holds `point`, if there is one. There is
    /// never more than one, and none for a point on an edge.
    pub fn tiles_containing(&self, point: WorldPoint) -> (found: Option<&Tile>)
        requires
            self@.wf(),
        ensures
            found is Some <==> self@.containing(point@) is Some,
            found matches Some(tile) ==> {
                &&& tile@ == self@.tiles[self@.containing(point@)->0]
                &&& tile@.covers(point@)
            },
            found is None ==> forall|i: int| 0 <= i < self@.tiles.len() ==> !(#[trigger] self@.tiles[i]).covers(point@),
    {
        match self.find_index(point) {
            Some(index) => {
                let tile: &Tile = &self.tiles[index];
                        Some(tile)
            },
            None => None,
        }
    }

    /// Selects `point`: the tile that holds it gets a marker showing
    /// `marker_sprite` on top of its stack, and the call reports the tile and
    /// the marker. Where no tile holds the point nothing changes. Markers are
    /// never taken off again, and selecting a tile twice stacks two.
    pub fn select(&mut self, point: WorldPoint, marker_sprite: usize) -> (picked: Option<Selection>)
        requires
            old(self)@.wf(),
        ensures
            final(self)@.wf(),
            final(self)@ == old(self)@.select(point@, marker_sprite),
            picked == old(self)@.selection(point@, marker_sprite),
    {
        match self.find_index(point) {
            Some(index) => {
                let ghost before = self@;
                let (row, col) = self.tiles[index].grid_position;
                let (x, y) = self.tiles[index].world_position;
                proof {
                    lemma_anchor_fits(col as int, self.tile_size.0 as int);
                    lemma_anchor_fits(row as int, self.tile_size.1 as int);
                }
                let layer = Layer { sprite: marker_sprite, x: x + VISUAL_INSET, y: y + VISUAL_INSET, z: MARKER_DEPTH };
                self.tiles[index].stack.push(layer);
                proof {
                    let after = before.select(point@, marker_sprite);
                    assert(self@.tiles =~= after.tiles);
                    lemma_select_keeps_wf(before, point@, marker_sprite);
                }
                Some(Selection { row, col, layer })
            },
            None => None,
        }
    }

    /// Sets whether a piece may step on the tile at `grid_position`. Tells
    /// whether the field has a tile there; if it has none, nothing changes.
    pub fn set_walkable(&mut self, grid_position: (u32, u32), walkable: bool) -> (found: bool)
        requires
            old(self)@.wf(),
        ensures
            final(self)@.wf(),
            found == old(self)@.in_range(grid_position.0 as int, grid_position.1 as int),
            final(self)@ == old(self)@.with_walkable(grid_position.0 as int, grid_position.1 as int, walkable),
    {
        let (row, col) = grid_position;
        if row >= self.rows || col >= self.cols {
            return false;
        }
        proof {
            lemma_index_in_range(row as int, col as int, self.rows as int, self.cols as int);
            assert(self.tiles.len() == self.rows * self.cols);
        }
        let ghost before = self@;
        let index: usize = row as usize * self.cols as usize + col as usize;
        self.tiles[index].walkable = walkable;
        proof {
            let after = before.with_walkable(row as int, col as int, walkable);
            assert(self@.tiles =~= after.tiles);
        }
        true
    }
}

/// A field that was just laid out is in order.
pub proof fn lemma_fresh_is_wf(rows: nat, cols: nat, tile_w: nat, tile_h: nat, base_sprite: usize)
    requires
        0 < rows <= u32::MAX,
        0 < cols <= u32::MAX,
        tile_w <= u32::MAX,
        tile_h <= u32::MAX,
    ensures
        GridModel::fresh(rows, cols, tile_w, tile_h, base_sprite).wf(),
{
    let g = GridModel::fresh(rows, cols, tile_w, tile_h, base_sprite);
    assert forall|i: int| 0 <= i < g.tiles.len() implies {
        &&& (#[trigger] g.tiles[i]).placed(i / (cols as int), i % (cols as int), tile_w, tile_h)
        &&& g.tiles[i].well_stacked(base_sprite)
    } by {
        lemma_fundamental_div_mod(i, cols as int);
        assert(0 <= i / (cols as int)) by (nonlinear_arith)
            requires
                0 <= i,
                0 < cols,
        ;
    }
}

} // verus!
