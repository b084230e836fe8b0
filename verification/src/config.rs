//! The field that the game is played on.

use vstd::prelude::*;
use crate::grid::{Grid, GridModel};

verus! {

/// Rows of the game field.
pub const GAMEFIELD_ROWS: u32 = 15;

/// Columns of the game field.
pub const GAMEFIELD_COLS: u32 = 15;

/// Width and height of a tile of the game field, in world units.
pub const TILE_SIZE: u32 = 32;

/// Width of the game field, in world units.
pub const ARENA_WIDTH: u32 = 480;

/// Height of the game field, in world units.
pub const ARENA_HEIGHT: u32 = 480;

/// Lays out the game field, every tile showing `base_sprite_id`.
pub fn initialize_field(base_sprite_id: usize) -> (grid: Grid)
    ensures
        grid@.wf(),
        grid@ == GridModel::fresh(
            GAMEFIELD_ROWS as nat,
            GAMEFIELD_COLS as nat,
            TILE_SIZE as nat,
            TILE_SIZE as nat,
            base_sprite_id,
        ),
        grid@.cols * grid@.tile_w == ARENA_WIDTH,
        grid@.rows * grid@.tile_h == ARENA_HEIGHT,
{
    match Grid::build((GAMEFIELD_ROWS, GAMEFIELD_COLS), (TILE_SIZE, TILE_SIZE), base_sprite_id) {
        Ok(grid) => grid,
        Err(_) => vstd::pervasive::unreached(),
    }
}

} // verus!
