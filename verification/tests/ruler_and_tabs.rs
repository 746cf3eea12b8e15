use copperforge_core::geometry::Point;
use copperforge_core::grid::GridSettings;
use copperforge_core::ruler::{floor_sqrt, measure, RulerState};
use copperforge_core::tabs::TabKind;

fn free_grid() -> GridSettings {
    GridSettings { enabled: true, spacing: 1000, dot_size: 10, snap_enabled: false }
}

#[test]
fn floor_square_roots() {
    assert_eq!(floor_sqrt(0), 0);
    assert_eq!(floor_sqrt(1), 1);
    assert_eq!(floor_sqrt(3), 1);
    assert_eq!(floor_sqrt(4), 2);
    assert_eq!(floor_sqrt(24), 4);
    assert_eq!(floor_sqrt(25), 5);
    assert_eq!(floor_sqrt(1_000_000_000_000), 1_000_000);
    assert_eq!(floor_sqrt(u128::MAX), u64::MAX as u128);
}

#[test]
fn measuring_between_two_points() {
    let m = measure(Point::new(1, 1), Point::new(4, 5));
    assert_eq!((m.dx, m.dy, m.distance), (3, 4, Some(5)));
    let back = measure(Point::new(4, 5), Point::new(1, 1));
    assert_eq!((back.dx, back.dy, back.distance), (-3, -4, Some(5)));
    let diag = measure(Point::new(0, 0), Point::new(1, 1));
    assert_eq!(diag.distance, Some(1));
    let wide = measure(Point::new(i64::MIN, i64::MIN), Point::new(i64::MAX, i64::MAX));
    assert_eq!(wide.dx, u64::MAX as i128);
    assert_eq!(wide.distance, None);
    let flat = measure(Point::new(i64::MIN, 0), Point::new(i64::MAX, 0));
    assert_eq!(flat.distance, Some(u64::MAX as u128));
}

#[test]
fn three_clicks_on_the_ruler() {
    let g = free_grid();
    let mut r = RulerState::new();
    r.click(Point::new(1, 1), &g);
    assert_eq!(r, RulerState::new());
    r.toggle();
    assert!(r.active);
    assert_eq!(r.measurement(), None);
    r.click(Point::new(1, 1), &g);
    assert_eq!(r.start, Some(Point::new(1, 1)));
    assert_eq!(r.end, None);
    assert!(r.dragging);
    r.hover(Point::new(2, 2), &g);
    assert_eq!(r.end, Some(Point::new(2, 2)));
    r.click(Point::new(4, 5), &g);
    assert_eq!(r.end, Some(Point::new(4, 5)));
    assert!(!r.dragging);
    assert_eq!(r.measurement().unwrap().distance, Some(5));
    r.hover(Point::new(9, 9), &g);
    assert_eq!(r.end, Some(Point::new(4, 5)));
    r.click(Point::new(7, 7), &g);
    assert_eq!(r.start, Some(Point::new(7, 7)));
    assert_eq!(r.end, None);
    assert!(r.dragging);
    r.toggle();
    assert_eq!(r, RulerState::new());
}

#[test]
fn ruler_clicks_snap_to_the_grid() {
    let g = GridSettings { enabled: true, spacing: 1000, dot_size: 10, snap_enabled: true };
    let mut r = RulerState::new();
    r.toggle();
    r.click(Point::new(1499, 501), &g);
    assert_eq!(r.start, Some(Point::new(1000, 1000)));
    r.hover(Point::new(2600, 0), &g);
    assert_eq!(r.end, Some(Point::new(3000, 0)));
}

#[test]
fn tab_titles() {
    assert_eq!(TabKind::ViewSettings.title(), "View Settings");
    assert_eq!(TabKind::DRC.title(), "DRC");
    assert_eq!(TabKind::GerberView.title(), "Gerber View");
    assert_eq!(TabKind::EventLog.title(), "Event Log");
    assert_eq!(TabKind::Project.title(), "Project");
    assert_eq!(TabKind::Settings.title(), "Settings");
    assert_eq!(TabKind::BOM.title(), "BOM");
}

#[test]
fn a_click_during_the_preview_fixes_the_end() {
    let g = free_grid();
    let mut r = RulerState::new();
    r.toggle();
    r.click(Point::new(0, 0), &g);
    r.hover(Point::new(3, 3), &g);
    r.hover(Point::new(3, 4), &g);
    r.click(Point::new(3, 4), &g);
    assert_eq!(r.start, Some(Point::new(0, 0)));
    assert_eq!(r.end, Some(Point::new(3, 4)));
    assert!(!r.dragging);
    assert_eq!(r.measurement().unwrap().distance, Some(5));
}
