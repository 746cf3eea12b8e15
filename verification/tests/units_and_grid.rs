use copperforge_core::display::board_dimensions;
use copperforge_core::geometry::{add_clamped, midpoint_of, sub_clamped, BoundingBox, Point};
use copperforge_core::grid::{snap_coordinate, snap_to_grid, GridSettings, GRID_PRESET_COUNT};
use copperforge_core::units::{convert, from_canonical, to_canonical, DisplayUnit};

#[test]
fn millimetres_to_canonical_and_back() {
    assert_eq!(to_canonical(2540, DisplayUnit::Millimeters), 2_540_000);
    assert_eq!(from_canonical(2_540_000, DisplayUnit::Millimeters), 2540);
}

#[test]
fn mils_step_is_a_hundredth_of_a_mil() {
    assert_eq!(DisplayUnit::Mils.step_nm(), 254);
    assert_eq!(DisplayUnit::Mils.display_steps_per_unit(), 100);
    assert_eq!(to_canonical(100, DisplayUnit::Mils), 25_400);
    assert_eq!(from_canonical(25_400, DisplayUnit::Mils), 100);
}

#[test]
fn from_canonical_rounds_halves_away_from_zero() {
    assert_eq!(from_canonical(499, DisplayUnit::Millimeters), 0);
    assert_eq!(from_canonical(500, DisplayUnit::Millimeters), 1);
    assert_eq!(from_canonical(-500, DisplayUnit::Millimeters), -1);
    assert_eq!(from_canonical(-499, DisplayUnit::Millimeters), 0);
    assert_eq!(from_canonical(127, DisplayUnit::Mils), 1);
    assert_eq!(from_canonical(126, DisplayUnit::Mils), 0);
    assert_eq!(from_canonical(7, DisplayUnit::Nanometers), 7);
    assert_eq!(from_canonical(15, DisplayUnit::Micrometers), 2);
}

#[test]
fn to_canonical_clamps_out_of_range_values() {
    assert_eq!(to_canonical(i64::MAX, DisplayUnit::Millimeters), i64::MAX);
    assert_eq!(to_canonical(i64::MIN, DisplayUnit::Mils), i64::MIN);
    assert_eq!(to_canonical(i64::MAX, DisplayUnit::Nanometers), i64::MAX);
}

#[test]
fn round_trip_stays_within_half_a_step() {
    let units = [
        DisplayUnit::Millimeters,
        DisplayUnit::Mils,
        DisplayUnit::Micrometers,
        DisplayUnit::Nanometers,
    ];
    let values = [0i64, 1, -1, 126, 127, 128, 499, 500, 501, 123_456_789, -987_654_321, i64::MAX, i64::MIN];
    for u in units {
        for v in values {
            let back = to_canonical(from_canonical(v, u), u);
            let gap = (back as i128 - v as i128).abs();
            assert!(2 * gap <= u.step_nm() as i128);
        }
    }
}

#[test]
fn display_values_survive_the_round_trip() {
    for d in [-1_000_000i64, -3, 0, 5, 42, 2540, 1_000_000] {
        assert_eq!(from_canonical(to_canonical(d, DisplayUnit::Mils), DisplayUnit::Mils), d);
        assert_eq!(
            from_canonical(to_canonical(d, DisplayUnit::Millimeters), DisplayUnit::Millimeters),
            d
        );
    }
}

#[test]
fn convert_goes_through_canonical() {
    // 2.540 mm is 100.00 mil.
    assert_eq!(convert(2540, DisplayUnit::Millimeters, DisplayUnit::Mils), 10_000);
    assert_eq!(convert(10_000, DisplayUnit::Mils, DisplayUnit::Millimeters), 2540);
    assert!(DisplayUnit::Mils.is_mils());
    assert!(!DisplayUnit::Millimeters.is_mils());
}

#[test]
fn clamped_arithmetic_stops_at_the_ends() {
    assert_eq!(add_clamped(1, 2), 3);
    assert_eq!(add_clamped(i64::MAX, 1), i64::MAX);
    assert_eq!(add_clamped(i64::MIN, -1), i64::MIN);
    assert_eq!(sub_clamped(5, 7), -2);
    assert_eq!(sub_clamped(i64::MIN, 1), i64::MIN);
    assert_eq!(sub_clamped(i64::MAX, -1), i64::MAX);
    assert_eq!(midpoint_of(2, 8), 5);
    assert_eq!(midpoint_of(8, 3), 5);
    assert_eq!(midpoint_of(-3, 0), -2);
    assert_eq!(midpoint_of(i64::MIN, i64::MAX), -1);
}

#[test]
fn bounding_box_extent_and_centre() {
    let b = BoundingBox::new(Point::new(-10, 0), Point::new(30, 20));
    assert!(!b.is_empty());
    assert_eq!(b.width(), 40);
    assert_eq!(b.height(), 20);
    assert_eq!(b.center(), Point::new(10, 10));
    let moved = b.translated(5, -5);
    assert_eq!(moved.min, Point::new(-5, -5));
    assert_eq!(moved.max, Point::new(35, 15));
    let empty = BoundingBox::new(Point::new(1, 1), Point::new(0, 5));
    assert!(empty.is_empty());
    assert_eq!(empty.width(), 0);
    assert_eq!(empty.height(), 0);
    let huge = BoundingBox::new(Point::new(i64::MIN, 0), Point::new(i64::MAX, 0));
    assert_eq!(huge.width(), u64::MAX);
    assert!(Point::origin().is_origin());
    assert_eq!(Point::new(i64::MAX, 0).translated(1, 1), Point::new(i64::MAX, 1));
}

#[test]
fn board_dimensions_in_display_units() {
    let b = BoundingBox::new(Point::new(0, 0), Point::new(100_000_000, 50_800_000));
    assert_eq!(board_dimensions(&b, DisplayUnit::Millimeters), (100_000, 50_800));
    assert_eq!(board_dimensions(&b, DisplayUnit::Mils), (393_701, 200_000));
}

#[test]
fn snap_disabled_returns_the_input() {
    let mut g = GridSettings::new();
    g.snap_enabled = false;
    let p = Point::new(1_234_567, -7_654_321);
    assert_eq!(snap_to_grid(p, &g), p);
}

#[test]
fn snap_rounds_each_axis_to_the_nearest_grid_line() {
    let g = GridSettings { enabled: true, spacing: 1000, dot_size: 10, snap_enabled: true };
    assert_eq!(snap_to_grid(Point::new(1499, 1500), &g), Point::new(1000, 2000));
    assert_eq!(snap_to_grid(Point::new(-1499, -1500), &g), Point::new(-1000, -2000));
    assert_eq!(snap_to_grid(Point::new(0, 499), &g), Point::new(0, 0));
    assert_eq!(snap_coordinate(2_540_001, 2_540_000), 2_540_000);
}

#[test]
fn snap_with_useless_spacing_moves_nothing() {
    assert_eq!(snap_coordinate(17, 0), 17);
    assert_eq!(snap_coordinate(17, -5), 17);
}

#[test]
fn snap_near_the_ends_of_the_range_stays_in_range() {
    assert_eq!(snap_coordinate(i64::MAX, 1000), 9_223_372_036_854_775_000);
    assert_eq!(snap_coordinate(i64::MIN, 1000), -9_223_372_036_854_775_000);
    assert_eq!(snap_coordinate(i64::MAX, 1), i64::MAX);
    assert_eq!(snap_coordinate(i64::MIN, 1), i64::MIN);
}

#[test]
fn snap_is_idempotent() {
    let spacings = [1i64, 3, 7, 254, 1000, 25_400, 2_540_000, i64::MAX, 0, -4];
    let xs = [0i64, 1, -1, 126, 127, 499, 500, -500, 1_234_567, -7_654_321, i64::MAX, i64::MIN];
    for s in spacings {
        let g = GridSettings { enabled: true, spacing: s, dot_size: 10, snap_enabled: true };
        for x in xs {
            for y in xs {
                let once = snap_to_grid(Point::new(x, y), &g);
                assert_eq!(snap_to_grid(once, &g), once);
            }
        }
    }
}

#[test]
fn grid_presets() {
    assert_eq!(GRID_PRESET_COUNT, 7);
    assert_eq!(GridSettings::preset(0), Some(2_540_000));
    assert_eq!(GridSettings::preset(6), Some(25_400));
    assert_eq!(GridSettings::preset(7), None);
    let mut g = GridSettings::new();
    assert_eq!(g.spacing, 2_540_000);
    assert_eq!(g.dot_size, 10);
    assert!(g.enabled);
    assert!(!g.snap_enabled);
    assert_eq!(g.preset_index(), Some(0));
    g.select_preset(3);
    assert_eq!(g.spacing, 254_000);
    assert_eq!(g.preset_index(), Some(3));
    g.select_preset(9);
    assert_eq!(g.spacing, 254_000);
    g.spacing = 254_999;
    assert_eq!(g.preset_index(), Some(3));
    g.spacing = 255_000;
    assert_eq!(g.preset_index(), None);
}
