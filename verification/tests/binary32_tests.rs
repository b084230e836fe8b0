use spybotics::coord::{WorldCoord, WorldPoint};
use spybotics::grid::Grid;

fn read(number: f32) -> Option<WorldCoord> {
    WorldCoord::from_binary32(number.to_bits())
}

fn coord(whole: i64, part: u32) -> Option<WorldCoord> {
    Some(WorldCoord { whole, part })
}

#[test]
fn whole_numbers_are_read_exactly() {
    assert_eq!(read(16.0), coord(16, 0));
    assert_eq!(read(1.0), coord(1, 0));
    assert_eq!(read(480.0), coord(480, 0));
    assert_eq!(read(16_777_216.0), coord(16_777_216, 0));
    assert_eq!(read(-16.0), coord(-16, 0));
    assert_eq!(read(-1.0), coord(-1, 0));
}

#[test]
fn both_zeros_are_read_as_zero() {
    assert_eq!(read(0.0), coord(0, 0));
    assert_eq!(read(-0.0), coord(0, 0));
    assert_eq!(WorldCoord::from_binary32(0), coord(0, 0));
    assert_eq!(WorldCoord::from_binary32(0x8000_0000), coord(0, 0));
}

#[test]
fn fractions_are_read_exactly() {
    assert_eq!(read(0.5), coord(0, 0x8000_0000));
    assert_eq!(read(0.25), coord(0, 0x4000_0000));
    assert_eq!(read(16.75), coord(16, 0xC000_0000));
    assert_eq!(read(239.5), coord(239, 0x8000_0000));
}

#[test]
fn negative_fractions_count_up_from_the_line_below() {
    assert_eq!(read(-0.5), coord(-1, 0x8000_0000));
    assert_eq!(read(-0.25), coord(-1, 0xC000_0000));
    assert_eq!(read(-16.75), coord(-17, 0x4000_0000));
}

#[test]
fn the_neighbours_of_a_whole_number_stay_beside_it() {
    let above = f32::from_bits(32.0f32.to_bits() + 1);
    let below = f32::from_bits(32.0f32.to_bits() - 1);
    assert_eq!(read(above), coord(32, 0x4000));
    assert_eq!(read(below), coord(31, 0xFFFF_E000));
    let under_the_rim = f32::from_bits(480.0f32.to_bits() - 1);
    assert_eq!(read(under_the_rim), coord(479, 0xFFFE_0000));
}

#[test]
fn what_falls_between_two_positions_goes_to_the_odd_one() {
    assert_eq!(WorldCoord::from_binary32(1), coord(0, 1));
    assert_eq!(WorldCoord::from_binary32(0x8000_0001), coord(-1, u32::MAX));
    assert_eq!(read(1.0e-30), coord(0, 1));
    assert_eq!(read(-1.0e-30), coord(-1, u32::MAX));
    assert_eq!(read(f32::MIN_POSITIVE), coord(0, 1));
    let one_and_a_half_parts = 1.5 / 4_294_967_296.0;
    assert_eq!(read(one_and_a_half_parts), coord(0, 1));
    let two_and_a_half_parts = 2.5 / 4_294_967_296.0;
    assert_eq!(read(two_and_a_half_parts), coord(0, 3));
    assert_eq!(read(-two_and_a_half_parts), coord(-1, u32::MAX - 2));
    let six_and_a_quarter_parts = 6.25 / 4_294_967_296.0;
    assert_eq!(read(six_and_a_quarter_parts), coord(0, 7));
    let just_over = f32::from_bits((1.0f32 / 1024.0).to_bits() + 1);
    assert_eq!(read(just_over), coord(0, 0x40_0001));
}

#[test]
fn small_numbers_that_fit_are_read_exactly() {
    assert_eq!(read(1.0 / 4_294_967_296.0), coord(0, 1));
    assert_eq!(read(2.0 / 4_294_967_296.0), coord(0, 2));
    assert_eq!(read(-1.0 / 4_294_967_296.0), coord(-1, u32::MAX));
    assert_eq!(read(1.0 / 1024.0), coord(0, 0x40_0000));
}

#[test]
fn large_numbers_are_read_exactly_while_they_fit() {
    assert_eq!(read(4_611_686_018_427_387_904.0), coord(1 << 62, 0));
    assert_eq!(read(-4_611_686_018_427_387_904.0), coord(-(1 << 62), 0));
    assert_eq!(read(-9_223_372_036_854_775_808.0), coord(i64::MIN, 0));
    let largest_below = f32::from_bits(9_223_372_036_854_775_808.0f32.to_bits() - 1);
    assert_eq!(read(largest_below), coord(i64::MAX - ((1 << 39) - 1), 0));
}

#[test]
fn numbers_too_large_go_to_the_ends_of_the_world() {
    assert_eq!(read(9_223_372_036_854_775_808.0), coord(i64::MAX, u32::MAX));
    assert_eq!(read(f32::MAX), coord(i64::MAX, u32::MAX));
    assert_eq!(read(f32::MIN), coord(i64::MIN, 0));
    assert_eq!(read(-1.0e30), coord(i64::MIN, 0));
    assert_eq!(read(1.0e30), coord(i64::MAX, u32::MAX));
}

#[test]
fn what_is_not_finite_is_not_read() {
    assert_eq!(read(f32::INFINITY), None);
    assert_eq!(read(f32::NEG_INFINITY), None);
    assert_eq!(read(f32::NAN), None);
    assert_eq!(WorldCoord::from_binary32(0x7F80_0001), None);
    assert_eq!(WorldCoord::from_binary32(0xFFFF_FFFF), None);
    assert_eq!(WorldCoord::from_binary32(0x7F7F_FFFF), coord(i64::MAX, u32::MAX));
}

#[test]
fn a_point_needs_two_finite_numbers() {
    let sixteen = 16.0f32.to_bits();
    let nothing = f32::NAN.to_bits();
    let endless = f32::INFINITY.to_bits();
    assert_eq!(WorldPoint::from_binary32(sixteen, sixteen), Some(WorldPoint::from_units(16, 16)));
    assert_eq!(WorldPoint::from_binary32(nothing, sixteen), None);
    assert_eq!(WorldPoint::from_binary32(sixteen, nothing), None);
    assert_eq!(WorldPoint::from_binary32(endless, endless), None);
    assert_eq!(
        WorldPoint::from_binary32(40.5f32.to_bits(), (-70.25f32).to_bits()),
        Some(WorldPoint { x: WorldCoord { whole: 40, part: 0x8000_0000 }, y: WorldCoord { whole: -71, part: 0xC000_0000 } })
    );
}

#[test]
fn reading_agrees_with_comparing_the_numbers() {
    let numbers: [f32; 16] = [
        -33.5,
        -32.0,
        -1.0e-20,
        0.0,
        1.0e-20,
        15.999999,
        16.0,
        16.000002,
        31.999998,
        32.0,
        32.000004,
        479.99997,
        480.0,
        480.00003,
        1.0e10,
        -1.0e10,
    ];
    let lines: [i64; 7] = [-32, 0, 16, 32, 448, 480, 10_000_000_000];
    for number in numbers.iter() {
        let read = read(*number).expect("a finite number");
        for line in lines.iter() {
            let above = read.whole > *line || (read.whole == *line && read.part > 0);
            let below = read.whole < *line;
            assert_eq!(above, *number > *line as f32);
            assert_eq!(below, *number < *line as f32);
        }
    }
}

#[test]
fn lookup_of_read_points_keeps_to_the_edges() {
    let grid = Grid::build((15, 15), (32, 32), 7).expect("a field of 15 by 15 tiles");
    let find = |x: f32, y: f32| {
        let point = WorldPoint::from_binary32(x.to_bits(), y.to_bits()).expect("two finite numbers");
        grid.tiles_containing(point).map(|tile| tile.grid_position)
    };
    assert_eq!(find(16.0, 16.0), Some((0, 0)));
    assert_eq!(find(32.0, 16.0), None);
    assert_eq!(find(16.0, 32.0), None);
    assert_eq!(find(31.999998, 16.0), Some((0, 0)));
    assert_eq!(find(32.000004, 16.0), Some((0, 1)));
    assert_eq!(find(1.0e-30, 1.0e-30), Some((0, 0)));
    assert_eq!(find(0.0, 16.0), None);
    assert_eq!(find(-1.0e-30, 16.0), None);
    assert_eq!(find(479.99997, 479.99997), Some((14, 14)));
    assert_eq!(find(480.0, 16.0), None);
    assert_eq!(find(1.0e30, 16.0), None);
    assert_eq!(find(40.5, 70.25), Some((2, 1)));
}
