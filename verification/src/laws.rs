//! What holds of every field and every tick.

use vstd::prelude::*;
use vstd::arithmetic::div_mod::{lemma_fundamental_div_mod, lemma_fundamental_div_mod_converse};
use crate::camera::CameraState;
use crate::coord::{Spot, UNIT};
use crate::grid::{
    lemma_containing_is, lemma_containing_is_cellwise, lemma_index_in_range, lemma_index_round_trip,
    lemma_select_keeps_wf, GridModel,
};
use crate::lattice::cell_of;
use crate::picker::{Activation, CameraRegistry, InputSnapshot, Picker, PickerState};
use crate::stack::{BASE_DEPTH, MARKER_DEPTH};

verus! {

impl GridModel {
    /// The point lies in the rectangle that the field takes up in the
    /// world, its lower and left edge counted in, its upper and right edge
    /// not.
    pub open spec fn arena_holds(self, p: Spot) -> bool {
        &&& 0 <= p.x < (self.cols * self.tile_w) * UNIT
        &&& 0 <= p.y < (self.rows * self.tile_h) * UNIT
    }

    /// The point lies on one of the lines on which tiles meet, or tiles have
    /// no size at all.
    pub open spec fn on_a_line(self, p: Spot) -> bool {
        cell_of(p.x, self.tile_w) is None || cell_of(p.y, self.tile_h) is None
    }
}

/// Grid positions and world positions determine each other: the tile at
/// `(row, col)` has its corner at `(col * tile_w, row * tile_h)`, and
/// dividing the corner by the size of a tile gives `(row, col)` back.
pub proof fn grid_world_round_trip(g: GridModel, row: int, col: int)
    requires
        g.wf(),
        g.in_range(row, col),
    ensures
        0 <= g.index(row, col) < g.tiles.len(),
        g.tile(row, col).grid_position == (row as nat, col as nat),
        g.tile(row, col).world_position == ((col * g.tile_w) as nat, (row * g.tile_h) as nat),
        g.tile_w > 0 ==> g.tile(row, col).world_position.0 as int / g.tile_w as int == col,
        g.tile_h > 0 ==> g.tile(row, col).world_position.1 as int / g.tile_h as int == row,
{
    lemma_index_in_range(row, col, g.rows as int, g.cols as int);
    lemma_index_round_trip(row, col, g.cols as int);
    assert(0 <= col * g.tile_w && 0 <= row * g.tile_h) by (nonlinear_arith)
        requires
            0 <= col,
            0 <= row,
    ;
    if g.tile_w > 0 {
        lemma_fundamental_div_mod_converse(col * g.tile_w, g.tile_w as int, col, 0);
    }
    if g.tile_h > 0 {
        lemma_fundamental_div_mod_converse(row * g.tile_h, g.tile_h as int, row, 0);
    }
}

/// Every position of the field holds one tile and no two tiles share a
/// position: the tile at place `i` stands at row `i / cols` and column
/// `i % cols`, and tiles at different places stand at different positions.
pub proof fn every_position_holds_one_tile(g: GridModel, i: int, j: int)
    requires
        g.wf(),
        0 <= i < g.tiles.len(),
        0 <= j < g.tiles.len(),
    ensures
        g.in_range(g.tiles[i].grid_position.0 as int, g.tiles[i].grid_position.1 as int),
        g.tile(g.tiles[i].grid_position.0 as int, g.tiles[i].grid_position.1 as int) == g.tiles[i],
        g.tiles[i].grid_position == g.tiles[j].grid_position ==> i == j,
{
    lemma_fundamental_div_mod(i, g.cols as int);
    lemma_fundamental_div_mod(j, g.cols as int);
    assert(0 <= i / (g.cols as int) < g.rows) by (nonlinear_arith)
        requires
            i == (g.cols as int) * (i / (g.cols as int)) + i % (g.cols as int),
            0 <= i % (g.cols as int) < g.cols,
            0 <= i < g.rows * g.cols,
    ;
    assert((i / (g.cols as int)) * g.cols == (g.cols as int) * (i / (g.cols as int))) by (nonlinear_arith);
}

/// The tiles leave no gaps: a point inside the field's rectangle lies in a
/// tile unless it lies on a line on which tiles meet.
pub proof fn tiles_leave_no_gaps(g: GridModel, p: Spot)
    requires
        g.wf(),
        g.arena_holds(p),
        !g.on_a_line(p),
    ensures
        g.containing(p) is Some,
{
    let col: int = cell_of(p.x, g.tile_w)->0;
    let row: int = cell_of(p.y, g.tile_h)->0;
    lemma_cell_in_range(p.x, g.tile_w, g.cols);
    lemma_cell_in_range(p.y, g.tile_h, g.rows);
    lemma_containing_is_cellwise(g, p);
}

/// A position before the end of `count` cells lies in a cell before the
/// `count`-th, and one from zero on lies in no cell before the first.
proof fn lemma_cell_in_range(x: int, size: nat, count: nat)
    requires
        size > 0,
    ensures
        0 <= x ==> 0 <= x / (size * UNIT),
        x < 0 ==> x / (size * UNIT) < 0,
        x < (count * size) * UNIT ==> x / (size * UNIT) < count,
        x >= (count * size) * UNIT ==> x / (size * UNIT) >= count,
{
    let span: int = size * UNIT;
    assert(span > 0) by (nonlinear_arith)
        requires
            span == size * UNIT,
            size > 0,
            UNIT > 0,
    ;
    lemma_fundamental_div_mod(x, span);
    let q: int = x / span;
    assert((count * size) * UNIT == count * span) by (nonlinear_arith)
        requires
            span == size * UNIT,
    ;
    assert(0 <= x ==> 0 <= q) by (nonlinear_arith)
        requires
            x == span * q + x % span,
            0 <= x % span < span,
    ;
    assert(x < 0 ==> q < 0) by (nonlinear_arith)
        requires
            x == span * q + x % span,
            0 <= x % span < span,
    ;
    assert(x < count * span ==> q < count) by (nonlinear_arith)
        requires
            x == span * q + x % span,
            0 <= x % span < span,
    ;
    assert(x >= count * span ==> q >= count) by (nonlinear_arith)
        requires
            x == span * q + x % span,
            0 <= x % span < span,
    ;
}

/// No tile holds a point outside the field's rectangle, so selecting such a
/// point changes no stack and reports nothing.
pub proof fn selecting_outside_changes_nothing(g: GridModel, p: Spot, sprite: usize)
    requires
        g.wf(),
        !g.arena_holds(p),
    ensures
        g.containing(p) is None,
        g.select(p, sprite) == g,
        g.selection(p, sprite) is None,
{
    lemma_containing_is_cellwise(g, p);
    if g.containing(p) is Some {
        let i: int = g.containing(p)->0;
        lemma_fundamental_div_mod(i, g.cols as int);
        assert(i / (g.cols as int) < g.rows) by (nonlinear_arith)
            requires
                i == (g.cols as int) * (i / (g.cols as int)) + i % (g.cols as int),
                0 <= i % (g.cols as int),
                i < g.rows * g.cols,
                0 < g.cols,
        ;
        assert(0 <= i / (g.cols as int)) by (nonlinear_arith)
            requires
                0 <= i,
                0 < g.cols,
        ;
        lemma_cell_in_range(p.x, g.tile_w, g.cols);
        lemma_cell_in_range(p.y, g.tile_h, g.rows);
    }
}

/// Selecting a point only ever appends: every stack keeps what it had, in
/// the same order, and grows by one layer at most.
pub proof fn selecting_only_appends(g: GridModel, p: Spot, sprite: usize)
    requires
        g.wf(),
    ensures
        g.select(p, sprite).tiles.len() == g.tiles.len(),
        forall|j: int|
            0 <= j < g.tiles.len() ==> {
                &&& (#[trigger] g.tiles[j]).layers.is_prefix_of(g.select(p, sprite).tiles[j].layers)
                &&& g.select(p, sprite).tiles[j].layers.len() <= g.tiles[j].layers.len() + 1
            },
{
    lemma_containing_is_cellwise(g, p);
}

/// Selecting the same point twice lays two markers on the tile that holds
/// it, one over the other. No other stack changes.
pub proof fn selecting_twice_stacks_two_markers(g: GridModel, p: Spot, sprite: usize)
    requires
        g.wf(),
    ensures
        match g.containing(p) {
            Some(i) => {
                let marker = g.tiles[i].visual(sprite, MARKER_DEPTH);
                let twice = g.select(p, sprite).select(p, sprite);
                &&& g.select(p, sprite).containing(p) == Some(i)
                &&& twice.tiles[i].layers == g.tiles[i].layers.push(marker).push(marker)
                &&& twice.tiles[i].layers.len() == g.tiles[i].layers.len() + 2
                &&& forall|j: int| 0 <= j < g.tiles.len() && j != i ==> #[trigger] twice.tiles[j] == g.tiles[j]
            },
            None => g.select(p, sprite).select(p, sprite) == g,
        },
{
    lemma_containing_is_cellwise(g, p);
    if g.containing(p) is Some {
        let i: int = g.containing(p)->0;
        let once = g.select(p, sprite);
        lemma_select_keeps_wf(g, p, sprite);
        lemma_containing_is(once, p, i);
    }
}

/// A selection starts exactly when the select action is down, the pointer
/// has a position and a camera is found.
pub proof fn selection_starts_on_press_pointer_and_camera(input: InputSnapshot, registry: CameraRegistry)
    ensures
        Activation::of(input, registry) is Project <==> {
            &&& input.select == Some(true)
            &&& input.pointer_available
            &&& registry.resolved() is Some
        },
        Activation::of(input, registry) matches Activation::Project { camera } ==> registry.resolved() == Some(
            camera,
        ),
        Activation::of(input, registry).state() is ActiveSelection <==> Activation::of(input, registry) is Project,
{
}

/// A tick in which no selection starts changes no stack, whatever its second
/// half is handed.
pub proof fn tick_without_selection_changes_nothing(
    picker: Picker,
    input: InputSnapshot,
    registry: CameraRegistry,
    g: GridModel,
    projected: Option<Spot>,
)
    requires
        !(Activation::of(input, registry) is Project),
    ensures
        Activation::of(input, registry).state() == PickerState::Idle,
        (Picker { state: Activation::of(input, registry).state(), ..picker }).field_after(g, projected) == g,
        (Picker { state: Activation::of(input, registry).state(), ..picker }).picked(g, projected) is None,
{
}

/// A tick that finds no camera marked as active, or no camera at all, starts
/// no selection, and whatever its second half is handed, no stack changes.
pub proof fn tick_without_active_camera_changes_nothing(
    picker: Picker,
    input: InputSnapshot,
    registry: CameraRegistry,
    g: GridModel,
    projected: Option<Spot>,
)
    requires
        registry.active is None || registry.cameras@.len() == 0,
    ensures
        !(Activation::of(input, registry) is Project),
        Activation::of(input, registry).state() == PickerState::Idle,
        (Picker { state: Activation::of(input, registry).state(), ..picker }).field_after(g, projected) == g,
        (Picker { state: Activation::of(input, registry).state(), ..picker }).picked(g, projected) is None,
{
}

/// A camera that draws the depth of the base sprites and the depth of the
/// markers draws every layer of the field, and every marker lies nearer to
/// it than the base sprite under it.
pub proof fn every_layer_is_drawn(g: GridModel, camera: CameraState)
    requires
        g.wf(),
        camera.sees(BASE_DEPTH as int),
        camera.sees(MARKER_DEPTH as int),
    ensures
        forall|i: int, k: int|
            0 <= i < g.tiles.len() && 0 <= k < g.tiles[i].layers.len() ==> camera.sees(
                (#[trigger] g.tiles[i].layers[k]).z as int,
            ),
        forall|i: int, k: int|
            0 <= i < g.tiles.len() && 1 <= k < g.tiles[i].layers.len() ==> (#[trigger] g.tiles[i].layers[k]).z
                > g.tiles[i].layers[0].z,
{
}

} // verus!
