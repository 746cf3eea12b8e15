use copperforge_core::display::{quadrant_offset, visibility_after_flip, DisplayManager};
use copperforge_core::geometry::Point;
use copperforge_core::grid::GridSettings;
use copperforge_core::layer::{LayerType, Side};
use copperforge_core::transform::{
    to_canonical, to_display, Rotation, ViewTransformState, MAX_QUADRANT_OFFSET,
};

fn state(rotation: Rotation, mirror_x: bool, mirror_y: bool, design: Point, center: Point) -> ViewTransformState {
    let mut s = ViewTransformState::new();
    s.rotation = rotation;
    s.mirror_x = mirror_x;
    s.mirror_y = mirror_y;
    s.design_offset = design;
    s.center_offset = center;
    s
}

#[test]
fn plain_state_is_a_pure_translation() {
    let s = state(Rotation::Deg0, false, false, Point::new(3, 4), Point::new(100, 200));
    assert_eq!(to_display(Point::new(10, 20), &s), Some(Point::new(107, 216)));
    let unset = state(Rotation::Deg0, false, false, Point::new(0, 0), Point::new(100, 200));
    assert!(!unset.has_custom_origin());
    assert_eq!(to_display(Point::new(10, 20), &unset), Some(Point::new(110, 220)));
}

#[test]
fn quarter_turns_follow_the_rotation_matrix() {
    let zero = Point::new(0, 0);
    let p = Point::new(10, 3);
    assert_eq!(to_display(p, &state(Rotation::Deg90, false, false, zero, zero)), Some(Point::new(-3, 10)));
    assert_eq!(to_display(p, &state(Rotation::Deg180, false, false, zero, zero)), Some(Point::new(-10, -3)));
    assert_eq!(to_display(p, &state(Rotation::Deg270, false, false, zero, zero)), Some(Point::new(3, -10)));
}

#[test]
fn rotation_then_mirror_in_that_order() {
    // Rotating (10, 0) by 90 degrees gives (0, 10); mirroring x leaves it.
    // Mirroring first and rotating after would give (0, -10).
    let zero = Point::new(0, 0);
    let s = state(Rotation::Deg90, true, false, zero, zero);
    assert_eq!(to_display(Point::new(10, 0), &s), Some(Point::new(0, 10)));
    let rotated = to_display(Point::new(10, 0), &state(Rotation::Deg90, false, false, zero, zero)).unwrap();
    let mirrored = to_display(rotated, &state(Rotation::Deg0, true, false, zero, zero)).unwrap();
    assert_eq!(to_display(Point::new(10, 0), &s), Some(mirrored));
    let mirrored_first = to_display(Point::new(10, 0), &state(Rotation::Deg0, true, false, zero, zero)).unwrap();
    let reordered = to_display(mirrored_first, &state(Rotation::Deg90, false, false, zero, zero)).unwrap();
    assert_eq!(reordered, Point::new(0, -10));
    assert_ne!(Some(reordered), to_display(Point::new(10, 0), &s));
}

#[test]
fn to_canonical_inverts_to_display_in_every_state() {
    let rotations = [Rotation::Deg0, Rotation::Deg90, Rotation::Deg180, Rotation::Deg270];
    let points = [Point::new(0, 0), Point::new(10, 0), Point::new(-7, 13), Point::new(1_000_000, -2_000_000)];
    for r in rotations {
        for mx in [false, true] {
            for my in [false, true] {
                let s = state(r, mx, my, Point::new(5, -9), Point::new(1000, 2000));
                for p in points {
                    let d = to_display(p, &s).unwrap();
                    assert_eq!(to_canonical(d, &s), Some(p));
                    let c = to_canonical(p, &s).unwrap();
                    assert_eq!(to_display(c, &s), Some(p));
                }
            }
        }
    }
}

#[test]
fn out_of_range_display_positions_are_refused() {
    let s = state(Rotation::Deg0, false, false, Point::new(0, 0), Point::new(1, 0));
    assert_eq!(to_display(Point::new(i64::MAX, 0), &s), None);
    let turned = state(Rotation::Deg180, false, false, Point::new(0, 0), Point::new(0, 0));
    assert_eq!(to_display(Point::new(i64::MIN, 0), &turned), None);
    assert_eq!(to_display(Point::new(i64::MIN + 1, 0), &turned), Some(Point::new(i64::MAX, 0)));
    let back = state(Rotation::Deg0, false, false, Point::new(0, 0), Point::new(-1, 0));
    assert_eq!(to_canonical(Point::new(i64::MAX, 0), &back), None);
}

#[test]
fn rotation_from_degrees_wraps() {
    assert_eq!(Rotation::from_degrees(0), Some(Rotation::Deg0));
    assert_eq!(Rotation::from_degrees(90), Some(Rotation::Deg90));
    assert_eq!(Rotation::from_degrees(360), Some(Rotation::Deg0));
    assert_eq!(Rotation::from_degrees(450), Some(Rotation::Deg90));
    assert_eq!(Rotation::from_degrees(-90), Some(Rotation::Deg270));
    assert_eq!(Rotation::from_degrees(-360), Some(Rotation::Deg0));
    assert_eq!(Rotation::from_degrees(45), None);
    assert_eq!(Rotation::from_degrees(-1), None);
    assert_eq!(Rotation::Deg270.degrees(), 270);
    assert_eq!(Rotation::Deg270.next(), Rotation::Deg0);
    assert_eq!(Rotation::Deg90.inverse(), Rotation::Deg270);
    assert_eq!(Rotation::Deg180.inverse(), Rotation::Deg180);
}

#[test]
fn view_state_controls() {
    let mut s = ViewTransformState::new();
    assert_eq!(s.rotation, Rotation::Deg0);
    s.rotate_quarter_turn();
    s.rotate_quarter_turn();
    assert_eq!(s.rotation, Rotation::Deg180);
    s.toggle_mirror_x();
    assert!(s.mirror_x && !s.mirror_y);
    s.toggle_mirror_y();
    s.toggle_mirror_x();
    assert!(!s.mirror_x && s.mirror_y);
    s.set_origin(Point::new(7, 0));
    assert!(s.has_custom_origin());
    // Rotation 180, mirror y, origin (7, 0): display (10, 10) less the
    // translation (-7, 0) is (17, 10); unmirrored (17, -10); turned back (-17, 10).
    assert_eq!(s.cursor_readout(Point::new(10, 10)), Some(Point::new(-17, 10)));
    assert_eq!(s.cursor_readout(Point::new(i64::MAX, 0)), None);
    s.reset_origin();
    assert!(!s.has_custom_origin());
    s.set_quadrant_offset_magnitude(-5);
    assert_eq!(s.quadrant_offset_magnitude, 0);
    s.set_quadrant_offset_magnitude(MAX_QUADRANT_OFFSET + 1);
    assert_eq!(s.quadrant_offset_magnitude, MAX_QUADRANT_OFFSET);
    s.set_quadrant_offset_magnitude(60_000_000);
    assert_eq!(s.quadrant_offset_magnitude, 60_000_000);
}

#[test]
fn quadrant_offsets_by_layer_type() {
    let mut s = ViewTransformState::new();
    s.quadrant_offset_magnitude = 100;
    assert_eq!(quadrant_offset(&s, LayerType::Copper(1)), Point::new(0, 0));
    s.quadrant_view_enabled = true;
    assert_eq!(quadrant_offset(&s, LayerType::Copper(2)), Point::new(100, 100));
    assert_eq!(quadrant_offset(&s, LayerType::Silkscreen(Side::Top)), Point::new(-100, 100));
    assert_eq!(quadrant_offset(&s, LayerType::Soldermask(Side::Bottom)), Point::new(-100, -100));
    assert_eq!(quadrant_offset(&s, LayerType::Paste(Side::Top)), Point::new(100, -100));
    assert_eq!(quadrant_offset(&s, LayerType::MechanicalOutline), Point::new(0, 0));
    s.quadrant_offset_magnitude = i64::MIN;
    assert_eq!(quadrant_offset(&s, LayerType::Silkscreen(Side::Top)), Point::new(i64::MAX, i64::MIN));
}

#[test]
fn flip_visibility_rule() {
    assert!(visibility_after_flip(LayerType::Copper(1), true, false));
    assert!(!visibility_after_flip(LayerType::Copper(1), false, true));
    assert!(visibility_after_flip(LayerType::Copper(2), false, false));
    assert!(!visibility_after_flip(LayerType::Paste(Side::Bottom), true, true));
    assert!(visibility_after_flip(LayerType::Silkscreen(Side::Top), true, false));
    assert!(visibility_after_flip(LayerType::MechanicalOutline, true, true));
    assert!(!visibility_after_flip(LayerType::MechanicalOutline, true, false));
}

#[test]
fn display_manager_origin_and_flip() {
    let mut d = DisplayManager::new();
    assert!(d.showing_top);
    d.flip();
    assert!(!d.showing_top);
    d.set_quadrant_view(true);
    assert!(d.view.quadrant_view_enabled);
    let grid = GridSettings { enabled: true, spacing: 1000, dot_size: 10, snap_enabled: true };
    d.set_origin_at(Point::new(1499, 2500), &grid);
    assert_eq!(d.view.design_offset, Point::new(1000, 3000));
    let free = GridSettings { enabled: true, spacing: 1000, dot_size: 10, snap_enabled: false };
    d.set_origin_at(Point::new(1499, 2500), &free);
    assert_eq!(d.view.design_offset, Point::new(1499, 2500));
    d.view.quadrant_offset_magnitude = 10;
    assert_eq!(d.get_quadrant_offset(LayerType::Copper(1)), Point::new(10, 10));
}

#[test]
fn the_cursor_reads_the_stored_position_under_it() {
    let rotations = [Rotation::Deg0, Rotation::Deg90, Rotation::Deg180, Rotation::Deg270];
    for r in rotations {
        for mx in [false, true] {
            for my in [false, true] {
                let s = state(r, mx, my, Point::new(5, -9), Point::new(1000, 2000));
                for p in [Point::new(10, 0), Point::new(-3, 8), Point::new(0, 0)] {
                    let shown = to_display(p, &s).unwrap();
                    assert_eq!(s.cursor_readout(shown), Some(p));
                }
            }
        }
    }
    let turned = state(Rotation::Deg90, false, false, Point::new(0, 0), Point::new(0, 0));
    assert_eq!(to_display(Point::new(10, 0), &turned), Some(Point::new(0, 10)));
    assert_eq!(turned.cursor_readout(Point::new(0, 10)), Some(Point::new(10, 0)));
}
