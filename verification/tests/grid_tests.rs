use spybotics::config::{initialize_field, ARENA_HEIGHT, ARENA_WIDTH, GAMEFIELD_COLS, GAMEFIELD_ROWS, TILE_SIZE};
use spybotics::coord::{WorldCoord, WorldPoint};
use spybotics::error::ConfigurationError;
use spybotics::grid::{Grid, Selection};
use spybotics::stack::{Layer, BASE_DEPTH, MARKER_DEPTH, VISUAL_INSET};

const BASE_SPRITE: usize = 7;
const MARKER_SPRITE: usize = 11;

fn field() -> Grid {
    Grid::build((15, 15), (32, 32), BASE_SPRITE).expect("a field of 15 by 15 tiles")
}

fn stack_len(grid: &Grid, row: u32, col: u32) -> usize {
    grid.tile_at((row, col)).expect("a tile in range").stack.len()
}

fn total_layers(grid: &Grid) -> usize {
    let mut total = 0;
    for row in 0..grid.rows() {
        for col in 0..grid.cols() {
            total += stack_len(grid, row, col);
        }
    }
    total
}

#[test]
fn build_refuses_a_field_without_rows() {
    assert_eq!(Grid::build((0, 15), (32, 32), BASE_SPRITE).err(), Some(ConfigurationError::InvalidExtent));
}

#[test]
fn build_refuses_a_field_without_columns() {
    assert_eq!(Grid::build((15, 0), (32, 32), BASE_SPRITE).err(), Some(ConfigurationError::InvalidExtent));
}

#[test]
fn build_refuses_an_empty_field() {
    assert_eq!(Grid::build((0, 0), (32, 32), BASE_SPRITE).err(), Some(ConfigurationError::InvalidExtent));
}

#[test]
fn build_accepts_a_single_tile() {
    let grid = Grid::build((1, 1), (32, 32), BASE_SPRITE).expect("one tile");
    assert_eq!(grid.rows(), 1);
    assert_eq!(grid.cols(), 1);
    assert!(grid.tile_at((0, 0)).is_some());
    assert!(grid.tile_at((0, 1)).is_none());
    assert!(grid.tile_at((1, 0)).is_none());
}

#[test]
fn build_keeps_extent_and_tile_size() {
    let grid = Grid::build((3, 5), (32, 20), BASE_SPRITE).expect("a field of 3 by 5 tiles");
    assert_eq!(grid.rows(), 3);
    assert_eq!(grid.cols(), 5);
    assert_eq!(grid.tile_size(), (32, 20));
    assert_eq!(grid.arena_extent(), (160, 60));
}

#[test]
fn every_position_holds_its_own_tile() {
    let grid = Grid::build((4, 6), (32, 20), BASE_SPRITE).expect("a field of 4 by 6 tiles");
    for row in 0..4u32 {
        for col in 0..6u32 {
            let tile = grid.tile_at((row, col)).expect("a tile in range");
            assert_eq!(tile.grid_position, (row, col));
            assert_eq!(tile.world_position, (col as u64 * 32, row as u64 * 20));
            assert_eq!(tile.world_extent, (32, 20));
            assert_eq!(tile.world_position.0 / 32, col as u64);
            assert_eq!(tile.world_position.1 / 20, row as u64);
        }
    }
}

#[test]
fn tile_at_gives_exact_world_position() {
    let grid = field();
    let tile = grid.tile_at((2, 5)).expect("a tile in range");
    assert_eq!(tile.grid_position, (2, 5));
    assert_eq!(tile.world_position, (160, 64));
    assert_eq!(tile.world_extent, (32, 32));
}

#[test]
fn tile_at_is_none_out_of_range() {
    let grid = field();
    assert!(grid.tile_at((15, 0)).is_none());
    assert!(grid.tile_at((0, 15)).is_none());
    assert!(grid.tile_at((15, 15)).is_none());
    assert!(grid.tile_at((u32::MAX, u32::MAX)).is_none());
    assert!(grid.tile_at((14, 14)).is_some());
}

#[test]
fn fresh_tiles_are_walkable_and_show_the_base_sprite() {
    let grid = field();
    for row in 0..15u32 {
        for col in 0..15u32 {
            let tile = grid.tile_at((row, col)).expect("a tile in range");
            assert!(tile.walkable);
            assert_eq!(tile.stack.len(), 1);
            assert_eq!(
                tile.stack.get(0),
                Some(Layer {
                    sprite: BASE_SPRITE,
                    x: col as u64 * 32 + VISUAL_INSET,
                    y: row as u64 * 32 + VISUAL_INSET,
                    z: BASE_DEPTH,
                })
            );
            assert_eq!(tile.stack.get(1), None);
        }
    }
}

#[test]
fn base_layer_is_set_in_by_sixteen_at_depth_minus_one() {
    let grid = field();
    let tile = grid.tile_at((1, 2)).expect("a tile in range");
    assert_eq!(tile.stack.get(0), Some(Layer { sprite: BASE_SPRITE, x: 80, y: 48, z: -1 }));
}

#[test]
fn the_point_sixteen_sixteen_lies_in_the_first_tile() {
    let grid = field();
    let tile = grid.tiles_containing(WorldPoint::from_units(16, 16)).expect("a tile under the point");
    assert_eq!(tile.grid_position, (0, 0));
    assert_eq!(tile.world_position, (0, 0));
}

#[test]
fn lookup_takes_x_for_the_column_and_y_for_the_row() {
    let grid = field();
    let tile = grid.tiles_containing(WorldPoint::from_units(40, 70)).expect("a tile under the point");
    assert_eq!(tile.grid_position, (2, 1));
    assert_eq!(tile.world_position, (32, 64));
}

#[test]
fn lookup_agrees_with_contains_on_every_tile() {
    let grid = Grid::build((3, 4), (32, 20), BASE_SPRITE).expect("a field of 3 by 4 tiles");
    let coords: Vec<WorldCoord> = vec![
        WorldCoord::new(-1, 0),
        WorldCoord::new(-1, u32::MAX),
        WorldCoord::new(0, 0),
        WorldCoord::new(0, 1),
        WorldCoord::new(19, u32::MAX),
        WorldCoord::new(20, 0),
        WorldCoord::new(20, 1),
        WorldCoord::new(31, u32::MAX),
        WorldCoord::new(32, 0),
        WorldCoord::new(45, 77),
        WorldCoord::new(59, u32::MAX),
        WorldCoord::new(60, 0),
        WorldCoord::new(60, 1),
        WorldCoord::new(127, u32::MAX),
        WorldCoord::new(128, 0),
        WorldCoord::new(128, 1),
        WorldCoord::new(i64::MAX, u32::MAX),
        WorldCoord::new(i64::MIN, 0),
    ];
    for x in coords.iter() {
        for y in coords.iter() {
            let point = WorldPoint::new(*x, *y);
            let mut holders: Vec<(u32, u32)> = Vec::new();
            for row in 0..3u32 {
                for col in 0..4u32 {
                    let tile = grid.tile_at((row, col)).expect("a tile in range");
                    if tile.contains(point) {
                        holders.push((row, col));
                    }
                }
            }
            assert!(holders.len() <= 1);
            let found = grid.tiles_containing(point).map(|tile| tile.grid_position);
            assert_eq!(found, holders.first().copied());
        }
    }
}

#[test]
fn a_point_on_a_shared_edge_lies_in_no_tile() {
    let grid = field();
    assert!(grid.tiles_containing(WorldPoint::from_units(32, 16)).is_none());
    assert!(grid.tiles_containing(WorldPoint::from_units(16, 32)).is_none());
    assert!(grid.tiles_containing(WorldPoint::from_units(64, 64)).is_none());
}

#[test]
fn a_point_on_the_rim_of_the_field_lies_in_no_tile() {
    let grid = field();
    assert!(grid.tiles_containing(WorldPoint::from_units(0, 16)).is_none());
    assert!(grid.tiles_containing(WorldPoint::from_units(16, 0)).is_none());
    assert!(grid.tiles_containing(WorldPoint::from_units(0, 0)).is_none());
    assert!(grid.tiles_containing(WorldPoint::from_units(480, 16)).is_none());
    assert!(grid.tiles_containing(WorldPoint::from_units(16, 480)).is_none());
}

#[test]
fn a_point_just_beside_an_edge_lies_in_the_tile_on_its_side() {
    let grid = field();
    let before = WorldPoint::new(WorldCoord::new(31, u32::MAX), WorldCoord::new(16, 0));
    let after = WorldPoint::new(WorldCoord::new(32, 1), WorldCoord::new(16, 0));
    assert_eq!(grid.tiles_containing(before).map(|tile| tile.grid_position), Some((0, 0)));
    assert_eq!(grid.tiles_containing(after).map(|tile| tile.grid_position), Some((0, 1)));
    let inside_the_rim = WorldPoint::new(WorldCoord::new(479, u32::MAX), WorldCoord::new(0, 1));
    assert_eq!(grid.tiles_containing(inside_the_rim).map(|tile| tile.grid_position), Some((0, 14)));
}

#[test]
fn a_point_outside_the_field_lies_in_no_tile() {
    let grid = field();
    assert!(grid.tiles_containing(WorldPoint::from_units(-5, 16)).is_none());
    assert!(grid.tiles_containing(WorldPoint::from_units(16, -5)).is_none());
    assert!(grid.tiles_containing(WorldPoint::from_units(500, 16)).is_none());
    assert!(grid.tiles_containing(WorldPoint::from_units(16, 500)).is_none());
    assert!(grid.tiles_containing(WorldPoint::new(WorldCoord::new(-1, u32::MAX), WorldCoord::new(16, 0))).is_none());
    assert!(grid.tiles_containing(WorldPoint::from_units(i64::MAX, i64::MAX)).is_none());
    assert!(grid.tiles_containing(WorldPoint::from_units(i64::MIN, i64::MIN)).is_none());
}

#[test]
fn tiles_without_size_hold_no_point() {
    let grid = Grid::build((2, 2), (0, 32), BASE_SPRITE).expect("a field of 2 by 2 tiles");
    assert_eq!(grid.arena_extent(), (0, 64));
    assert!(grid.tiles_containing(WorldPoint::from_units(0, 16)).is_none());
    assert!(grid.tiles_containing(WorldPoint::new(WorldCoord::new(0, 1), WorldCoord::new(16, 0))).is_none());
    let flat = Grid::build((2, 2), (32, 0), BASE_SPRITE).expect("a field of 2 by 2 tiles");
    assert!(flat.tiles_containing(WorldPoint::from_units(16, 0)).is_none());
    assert!(flat.tiles_containing(WorldPoint::new(WorldCoord::new(16, 0), WorldCoord::new(0, 1))).is_none());
}

#[test]
fn select_lays_a_marker_on_the_tile_under_the_point() {
    let mut grid = field();
    let picked = grid.select(WorldPoint::from_units(40, 70), MARKER_SPRITE);
    let marker = Layer { sprite: MARKER_SPRITE, x: 48, y: 80, z: 0 };
    assert_eq!(picked, Some(Selection { row: 2, col: 1, layer: marker }));
    let tile = grid.tile_at((2, 1)).expect("a tile in range");
    assert_eq!(tile.stack.len(), 2);
    assert_eq!(tile.stack.get(0), Some(Layer { sprite: BASE_SPRITE, x: 48, y: 80, z: -1 }));
    assert_eq!(tile.stack.get(1), Some(marker));
    assert_eq!(total_layers(&grid), 15 * 15 + 1);
}

#[test]
fn a_marker_lies_nearer_to_the_camera_than_the_base_sprite() {
    let mut grid = field();
    let picked = grid.select(WorldPoint::from_units(16, 16), MARKER_SPRITE).expect("a tile under the point");
    assert_eq!(picked.layer.z, MARKER_DEPTH);
    assert!(MARKER_DEPTH > BASE_DEPTH);
    let tile = grid.tile_at((0, 0)).expect("a tile in range");
    assert!(tile.stack.get(1).expect("the marker").z > tile.stack.get(0).expect("the base sprite").z);
}

#[test]
fn selecting_a_point_twice_stacks_two_markers() {
    let mut grid = field();
    let point = WorldPoint::from_units(16, 16);
    let first = grid.select(point, MARKER_SPRITE);
    assert_eq!(stack_len(&grid, 0, 0), 2);
    let second = grid.select(point, MARKER_SPRITE);
    assert_eq!(stack_len(&grid, 0, 0), 3);
    assert_eq!(first, second);
    let marker = Layer { sprite: MARKER_SPRITE, x: 16, y: 16, z: 0 };
    let tile = grid.tile_at((0, 0)).expect("a tile in range");
    assert_eq!(tile.stack.get(1), Some(marker));
    assert_eq!(tile.stack.get(2), Some(marker));
    assert_eq!(total_layers(&grid), 15 * 15 + 2);
}

#[test]
fn selecting_outside_the_field_changes_no_stack() {
    let mut grid = field();
    let outside = [
        WorldPoint::from_units(-1, 16),
        WorldPoint::from_units(16, -1),
        WorldPoint::from_units(480, 16),
        WorldPoint::from_units(16, 480),
        WorldPoint::from_units(1000, 1000),
        WorldPoint::from_units(-1000, -1000),
        WorldPoint::new(WorldCoord::new(-1, u32::MAX), WorldCoord::new(16, 0)),
    ];
    for point in outside.iter() {
        assert_eq!(grid.select(*point, MARKER_SPRITE), None);
        assert_eq!(total_layers(&grid), 15 * 15);
    }
}

#[test]
fn selecting_a_point_on_an_edge_changes_no_stack() {
    let mut grid = field();
    assert_eq!(grid.select(WorldPoint::from_units(32, 48), MARKER_SPRITE), None);
    assert_eq!(grid.select(WorldPoint::from_units(48, 32), MARKER_SPRITE), None);
    assert_eq!(total_layers(&grid), 15 * 15);
}

#[test]
fn set_walkable_changes_one_tile() {
    let mut grid = Grid::build((2, 3), (32, 32), BASE_SPRITE).expect("a field of 2 by 3 tiles");
    assert!(grid.set_walkable((1, 2), false));
    for row in 0..2u32 {
        for col in 0..3u32 {
            let tile = grid.tile_at((row, col)).expect("a tile in range");
            assert_eq!(tile.walkable, (row, col) != (1, 2));
        }
    }
    assert!(grid.set_walkable((1, 2), true));
    assert!(grid.tile_at((1, 2)).expect("a tile in range").walkable);
}

#[test]
fn set_walkable_out_of_range_changes_nothing() {
    let mut grid = Grid::build((2, 3), (32, 32), BASE_SPRITE).expect("a field of 2 by 3 tiles");
    assert!(!grid.set_walkable((2, 0), false));
    assert!(!grid.set_walkable((0, 3), false));
    for row in 0..2u32 {
        for col in 0..3u32 {
            assert!(grid.tile_at((row, col)).expect("a tile in range").walkable);
        }
    }
}

#[test]
fn the_game_field_has_fifteen_rows_and_columns_of_tiles_of_thirty_two() {
    assert_eq!((GAMEFIELD_ROWS, GAMEFIELD_COLS, TILE_SIZE), (15, 15, 32));
    assert_eq!((ARENA_WIDTH, ARENA_HEIGHT), (480, 480));
    let grid = initialize_field(BASE_SPRITE);
    assert_eq!(grid.rows(), 15);
    assert_eq!(grid.cols(), 15);
    assert_eq!(grid.tile_size(), (32, 32));
    assert_eq!(grid.arena_extent(), (480, 480));
    assert_eq!(total_layers(&grid), 225);
    let last = grid.tile_at((14, 14)).expect("a tile in range");
    assert_eq!(last.world_position, (448, 448));
    assert_eq!(last.stack.get(0), Some(Layer { sprite: BASE_SPRITE, x: 464, y: 464, z: -1 }));
}

#[test]
fn a_field_may_be_as_wide_as_the_numbers_allow() {
    let grid = Grid::build((1, 3), (u32::MAX, u32::MAX), BASE_SPRITE).expect("a field of 1 by 3 tiles");
    let size = u32::MAX as u64;
    assert_eq!(grid.arena_extent(), (3 * size, size));
    let tile = grid.tile_at((0, 2)).expect("a tile in range");
    assert_eq!(tile.world_position, (2 * size, 0));
    assert_eq!(tile.stack.get(0).expect("the base sprite").x, 2 * size + 16);
    let point = WorldPoint::from_units(2 * size as i64 + 5, 5);
    assert_eq!(grid.tiles_containing(point).map(|tile| tile.grid_position), Some((0, 2)));
}
