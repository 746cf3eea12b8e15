use copperforge_core::display::DisplayManager;
use copperforge_core::geometry::{BoundingBox, Point};
use copperforge_core::layer::{
    GerberGeometry, LayerCoordinates, LayerInfo, LayerType, Side, UnassignedGerber,
};
use copperforge_core::manager::{LayerManager, PersistedLayers, STALENESS_THRESHOLD_NANOS};

fn geometry(x0: i64, y0: i64, x1: i64, y1: i64) -> GerberGeometry {
    GerberGeometry::new(BoundingBox::new(Point::new(x0, y0), Point::new(x1, y1)))
}

fn record(visible: bool) -> LayerInfo {
    LayerInfo::new(Some(geometry(0, 0, 100, 50)), visible)
}

#[test]
fn a_new_manager_is_empty() {
    let m = LayerManager::new();
    assert_eq!(m.layer_count(), 0);
    assert_eq!(m.unassigned_count(), 0);
    assert_eq!(m.assignment_count(), 0);
    assert_eq!(m.get_active_layer(), LayerType::Copper(1));
    assert!(!m.is_dirty());
    assert!(m.get_visible_layers().is_empty());
    let d = LayerManager::default();
    assert_eq!(d.layer_count(), 0);
    assert_eq!(d.get_active_layer(), LayerType::Copper(1));
}

#[test]
fn add_then_get_returns_the_record() {
    let mut m = LayerManager::new();
    let r = record(true);
    m.add_layer(LayerType::Copper(1), r);
    assert_eq!(m.get_layer(&LayerType::Copper(1)), Some(&r));
    assert_eq!(m.get_layer(&LayerType::Copper(2)), None);
    let other = LayerInfo::new(None, false);
    m.add_layer(LayerType::Copper(1), other);
    assert_eq!(m.get_layer(&LayerType::Copper(1)), Some(&other));
    assert_eq!(m.layer_count(), 1);
}

#[test]
fn remove_then_get_is_absent() {
    let mut m = LayerManager::new();
    let r = record(true);
    m.add_layer(LayerType::Copper(1), r);
    m.add_layer(LayerType::Paste(Side::Top), record(false));
    assert_eq!(m.remove_layer(&LayerType::Copper(1)), Some(r));
    assert_eq!(m.get_layer(&LayerType::Copper(1)), None);
    assert_eq!(m.remove_layer(&LayerType::Copper(1)), None);
    assert_eq!(m.layer_count(), 1);
    assert_eq!(m.layer_types(), vec![LayerType::Paste(Side::Top)]);
}

#[test]
fn get_layer_mut_writes_through() {
    let mut m = LayerManager::new();
    m.add_layer(LayerType::Copper(1), record(true));
    m.add_layer(LayerType::Copper(2), record(true));
    match m.get_layer_mut(&LayerType::Copper(2)) {
        Some(info) => info.visible = false,
        None => panic!("layer is present"),
    }
    assert!(!m.get_layer(&LayerType::Copper(2)).unwrap().visible);
    assert!(m.get_layer(&LayerType::Copper(1)).unwrap().visible);
    assert!(m.get_layer_mut(&LayerType::MechanicalOutline).is_none());
}

#[test]
fn active_layer_and_clear_all() {
    let mut m = LayerManager::new();
    m.set_active_layer(LayerType::Silkscreen(Side::Bottom));
    m.add_layer(LayerType::Copper(1), record(true));
    m.add_unassigned_gerber(UnassignedGerber::new("x.gbr".to_string(), geometry(0, 0, 1, 1)));
    m.assign_layer("x.gbr".to_string(), LayerType::Copper(2));
    m.mark_coordinates_dirty();
    m.clear_all();
    assert_eq!(m.layer_count(), 0);
    assert_eq!(m.unassigned_count(), 0);
    assert_eq!(m.assignment_count(), 0);
    assert_eq!(m.get_active_layer(), LayerType::Silkscreen(Side::Bottom));
    assert!(m.is_dirty());
}

#[test]
fn unassigned_gerbers_by_index() {
    let mut m = LayerManager::new();
    m.add_unassigned_gerber(UnassignedGerber::new("a.gbr".to_string(), geometry(0, 0, 1, 1)));
    m.add_unassigned_gerber(UnassignedGerber::new("b.gbr".to_string(), geometry(0, 0, 2, 2)));
    assert_eq!(m.unassigned_count(), 2);
    assert_eq!(m.get_unassigned_gerber(1).unwrap().filename, "b.gbr");
    assert!(m.get_unassigned_gerber(2).is_none());
    assert!(m.remove_unassigned_gerber(2).is_none());
    assert_eq!(m.unassigned_count(), 2);
    let first = m.remove_unassigned_gerber(0).unwrap();
    assert_eq!(first.filename, "a.gbr");
    assert_eq!(first.geometry, geometry(0, 0, 1, 1));
    assert_eq!(m.unassigned_count(), 1);
    assert_eq!(m.get_unassigned_gerber(0).unwrap().filename, "b.gbr");
}

#[test]
fn assignments_hold_one_entry_per_filename() {
    let mut m = LayerManager::new();
    m.assign_layer("a.gbr".to_string(), LayerType::Copper(1));
    m.assign_layer("b.gbr".to_string(), LayerType::Copper(2));
    m.assign_layer("a.gbr".to_string(), LayerType::MechanicalOutline);
    assert_eq!(m.assignment_count(), 2);
    assert_eq!(m.get_assignment("a.gbr"), Some(&LayerType::MechanicalOutline));
    assert_eq!(m.get_assignment("c.gbr"), None);
    assert!(m.is_layer_assigned(&LayerType::Copper(2)));
    assert!(!m.is_layer_assigned(&LayerType::Copper(1)));
    assert_eq!(m.remove_assignment("b.gbr"), Some(LayerType::Copper(2)));
    assert_eq!(m.remove_assignment("b.gbr"), None);
    assert!(!m.is_layer_assigned(&LayerType::Copper(2)));
    assert_eq!(m.assignment_count(), 1);
}

#[test]
fn visible_layers_and_statistics() {
    let mut m = LayerManager::new();
    m.add_layer(LayerType::Copper(1), record(true));
    m.add_layer(LayerType::Copper(2), record(false));
    m.add_layer(LayerType::MechanicalOutline, record(true));
    m.add_unassigned_gerber(UnassignedGerber::new("x".to_string(), geometry(0, 0, 1, 1)));
    m.assign_layer("y".to_string(), LayerType::Copper(1));
    let visible: Vec<LayerType> = m.get_visible_layers().iter().map(|(t, _)| **t).collect();
    assert_eq!(visible, vec![LayerType::Copper(1), LayerType::MechanicalOutline]);
    for (t, info) in m.get_visible_layers() {
        assert!(info.visible);
        assert_eq!(m.get_layer(t), Some(info));
    }
    let s = m.get_statistics();
    assert_eq!(s.total_layers, 3);
    assert_eq!(s.visible_layers, 2);
    assert_eq!(s.unassigned_gerbers, 1);
    assert_eq!(s.assignments, 1);
    m.toggle_layer_visibility(&LayerType::Copper(2));
    m.set_layer_visibility(&LayerType::Copper(1), false);
    m.toggle_layer_visibility(&LayerType::Paste(Side::Top));
    m.set_layer_visibility(&LayerType::Paste(Side::Top), true);
    assert_eq!(m.layer_count(), 3);
    let visible: Vec<LayerType> = m.get_visible_layers().iter().map(|(t, _)| **t).collect();
    assert_eq!(visible, vec![LayerType::Copper(2), LayerType::MechanicalOutline]);
}

#[test]
fn detection_goes_through_the_built_in_table() {
    let m = LayerManager::new();
    assert_eq!(m.detect_layer_type("board-F_Cu.gbr"), Some(LayerType::Copper(1)));
    assert_eq!(m.detect_layer_type("readme.md"), None);
}

#[test]
fn dirty_coordinates_need_an_update_whatever_the_clock_says() {
    let mut m = LayerManager::new();
    assert!(!m.needs_update_after(0));
    assert!(!m.needs_update_after(STALENESS_THRESHOLD_NANOS));
    assert!(m.needs_update_after(STALENESS_THRESHOLD_NANOS + 1));
    m.mark_coordinates_dirty();
    m.mark_coordinates_dirty();
    assert!(m.is_dirty());
    assert!(m.needs_update_after(0));
    assert!(m.coordinates_need_update());
    m.mark_coordinates_updated();
    assert!(!m.is_dirty());
    assert!(!m.needs_update_after(0));
    assert!(!m.coordinates_need_update());
}

#[test]
fn update_from_display_places_the_layers_and_clears_dirty() {
    let mut m = LayerManager::new();
    m.add_layer(LayerType::Copper(1), record(true));
    m.add_layer(LayerType::Silkscreen(Side::Top), record(true));
    m.add_layer(LayerType::MechanicalOutline, LayerInfo::new(None, true));
    let mut d = DisplayManager::new();
    d.set_quadrant_view(true);
    d.view.set_quadrant_offset_magnitude(1000);
    m.mark_coordinates_dirty();
    m.update_coordinates_from_display(&d);
    assert!(!m.is_dirty());
    assert!(!m.needs_update_after(0));
    let copper = m.get_layer(&LayerType::Copper(1)).unwrap();
    assert_eq!(
        copper.coordinates,
        Some(LayerCoordinates {
            offset: Point::new(1000, 1000),
            bounds: BoundingBox::new(Point::new(1000, 1000), Point::new(1100, 1050)),
        })
    );
    assert_eq!(copper.bounding_box, Some(BoundingBox::new(Point::new(0, 0), Point::new(100, 50))));
    let silk = m.get_layer(&LayerType::Silkscreen(Side::Top)).unwrap();
    assert_eq!(silk.coordinates.unwrap().offset, Point::new(-1000, 1000));
    let outline = m.get_layer(&LayerType::MechanicalOutline).unwrap();
    assert_eq!(outline.coordinates, None);
    assert_eq!(outline.bounding_box, None);
}

#[test]
fn update_when_not_needed_changes_nothing() {
    let mut m = LayerManager::new();
    m.add_layer(LayerType::Copper(1), record(true));
    let d = DisplayManager::new();
    let now = std::time::Instant::now();
    m.update_coordinates_when(&d, false, now);
    assert_eq!(m.get_layer(&LayerType::Copper(1)).unwrap().coordinates, None);
    m.mark_coordinates_dirty();
    m.update_coordinates_when(&d, false, now);
    assert!(m.is_dirty());
    m.update_coordinates_when(&d, true, now);
    assert!(!m.is_dirty());
    assert!(m.get_layer(&LayerType::Copper(1)).unwrap().coordinates.is_some());
}

#[test]
fn initialize_all_coordinates_places_geometry_where_it_lies() {
    let mut m = LayerManager::new();
    m.add_layer(LayerType::Copper(1), record(true));
    m.mark_coordinates_dirty();
    m.initialize_all_coordinates();
    assert!(!m.is_dirty());
    let info = m.get_layer(&LayerType::Copper(1)).unwrap();
    assert_eq!(
        info.coordinates,
        Some(LayerCoordinates {
            offset: Point::new(0, 0),
            bounds: BoundingBox::new(Point::new(0, 0), Point::new(100, 50)),
        })
    );
    let mut d = DisplayManager::new();
    d.set_quadrant_view(true);
    d.view.set_quadrant_offset_magnitude(10);
    d.update_layer_positions(&mut m);
    assert_eq!(
        m.get_layer(&LayerType::Copper(1)).unwrap().coordinates.unwrap().offset,
        Point::new(10, 10)
    );
    assert!(!m.is_dirty());
}

#[test]
fn outline_centroid() {
    let mut m = LayerManager::new();
    assert_eq!(m.get_mechanical_outline_centroid(), None);
    m.add_layer(LayerType::MechanicalOutline, LayerInfo::new(None, true));
    assert_eq!(m.get_mechanical_outline_centroid(), None);
    m.add_layer(
        LayerType::MechanicalOutline,
        LayerInfo::new(Some(geometry(-10, 0, 30, 20)), true),
    );
    assert_eq!(m.get_mechanical_outline_centroid(), Some((10, 10)));
}

#[test]
fn flipping_the_board_shows_the_other_face() {
    let mut m = LayerManager::new();
    m.add_layer(LayerType::Copper(1), record(true));
    m.add_layer(LayerType::Copper(2), record(false));
    m.add_layer(LayerType::Silkscreen(Side::Bottom), record(false));
    m.add_layer(LayerType::MechanicalOutline, record(true));
    let mut d = DisplayManager::new();
    d.flip_board(&mut m);
    assert!(!d.showing_top);
    assert!(m.is_dirty());
    assert!(!m.get_layer(&LayerType::Copper(1)).unwrap().visible);
    assert!(m.get_layer(&LayerType::Copper(2)).unwrap().visible);
    assert!(m.get_layer(&LayerType::Silkscreen(Side::Bottom)).unwrap().visible);
    assert!(m.get_layer(&LayerType::MechanicalOutline).unwrap().visible);
    m.apply_flip(true);
    assert!(m.get_layer(&LayerType::Copper(1)).unwrap().visible);
    assert!(!m.get_layer(&LayerType::Copper(2)).unwrap().visible);
}

#[test]
fn importing_five_files_with_one_unknown() {
    let mut m = LayerManager::new();
    let files = ["b-F_Cu.gbr", "b-B_Cu.gbr", "b-F_SilkS.gbr", "b-F_Mask.gbr", "b-profile.gbr"];
    let mut roles = Vec::new();
    for (i, f) in files.iter().enumerate() {
        roles.push(m.import_gerber(f.to_string(), geometry(0, 0, 10 + i as i64, 10)));
    }
    assert_eq!(
        roles,
        vec![
            Some(LayerType::Copper(1)),
            Some(LayerType::Copper(2)),
            Some(LayerType::Silkscreen(Side::Top)),
            Some(LayerType::Soldermask(Side::Top)),
            None,
        ]
    );
    assert_eq!(m.layer_count(), 4);
    assert_eq!(m.unassigned_count(), 1);
    assert_eq!(m.get_unassigned_gerber(0).unwrap().filename, "b-profile.gbr");
    assert!(m.is_dirty());

    assert_eq!(m.waiting_index("b-profile.gbr"), Some(0));
    assert_eq!(m.waiting_index("b-F_Cu.gbr"), None);
    m.assign_layer("b-profile.gbr".to_string(), LayerType::MechanicalOutline);
    assert_eq!(m.unassigned_count(), 0);
    assert_eq!(m.layer_count(), 5);
    assert_eq!(m.get_assignment("b-profile.gbr"), Some(&LayerType::MechanicalOutline));
    let outline = m.get_layer(&LayerType::MechanicalOutline).unwrap();
    assert_eq!(outline.geometry, Some(geometry(0, 0, 14, 10)));
    assert!(outline.visible);
    assert!(!m.promote_unassigned(0, LayerType::Copper(1)));
    assert_eq!(m.layer_count(), 5);

    // An assignment decides before the detector does.
    assert_eq!(
        m.import_gerber("b-profile.gbr".to_string(), geometry(0, 0, 99, 99)),
        Some(LayerType::MechanicalOutline)
    );
    assert_eq!(m.layer_count(), 5);
    assert_eq!(
        m.get_layer(&LayerType::MechanicalOutline).unwrap().geometry,
        Some(geometry(0, 0, 99, 99))
    );
}

#[test]
fn assigning_a_waiting_file_promotes_it() {
    let mut m = LayerManager::new();
    m.add_unassigned_gerber(UnassignedGerber::new("a.gbr".to_string(), geometry(0, 0, 1, 1)));
    m.add_unassigned_gerber(UnassignedGerber::new("x.gbr".to_string(), geometry(0, 0, 2, 2)));
    m.add_unassigned_gerber(UnassignedGerber::new("x.gbr".to_string(), geometry(0, 0, 3, 3)));
    m.mark_coordinates_updated();
    let before = m.layer_count();
    m.assign_layer("x.gbr".to_string(), LayerType::MechanicalOutline);
    assert_eq!(m.get_assignment("x.gbr"), Some(&LayerType::MechanicalOutline));
    assert_eq!(m.unassigned_count(), 2);
    assert_eq!(m.get_unassigned_gerber(0).unwrap().filename, "a.gbr");
    assert_eq!(m.get_unassigned_gerber(1).unwrap().geometry, geometry(0, 0, 3, 3));
    assert_eq!(m.layer_count(), before + 1);
    let outline = m.get_layer(&LayerType::MechanicalOutline).unwrap();
    assert_eq!(outline.geometry, Some(geometry(0, 0, 2, 2)));
    assert!(outline.visible);
    assert_eq!(outline.coordinates, None);
    assert!(m.is_dirty());
    // A name under which nothing waits is only recorded.
    m.mark_coordinates_updated();
    m.assign_layer("later.gbr".to_string(), LayerType::Copper(1));
    assert_eq!(m.unassigned_count(), 2);
    assert_eq!(m.layer_count(), before + 1);
    assert!(!m.is_dirty());
    // Promotion by index does the same for the entry it names.
    assert!(m.promote_unassigned(1, LayerType::Copper(2)));
    assert_eq!(m.get_assignment("x.gbr"), Some(&LayerType::Copper(2)));
    assert_eq!(m.get_layer(&LayerType::Copper(2)).unwrap().geometry, Some(geometry(0, 0, 3, 3)));
}

#[test]
fn stamping_at_a_given_clock_reading() {
    let now = std::time::Instant::now();
    let mut m = LayerManager::new_at(now);
    assert!(!m.is_dirty());
    assert_eq!(m.layer_count(), 0);
    m.add_layer(LayerType::Copper(1), record(true));
    m.mark_coordinates_dirty();
    m.initialize_all_coordinates_at(now);
    assert!(!m.is_dirty());
    assert!(m.get_layer(&LayerType::Copper(1)).unwrap().coordinates.is_some());
    m.mark_coordinates_dirty();
    m.mark_coordinates_updated_at(now);
    assert!(!m.is_dirty());
    assert!(!m.coordinates_need_update());
    let p = m.to_persisted();
    let restored = LayerManager::from_persisted_at(&p, now);
    assert!(restored.is_dirty());
    assert!(restored.coordinates_need_update());
}

#[test]
fn persisted_part_round_trip() {
    let mut m = LayerManager::new();
    m.set_active_layer(LayerType::Copper(2));
    m.assign_layer("a".to_string(), LayerType::Copper(1));
    m.assign_layer("b".to_string(), LayerType::Paste(Side::Bottom));
    m.add_layer(LayerType::Copper(1), record(true));
    let p = m.to_persisted();
    assert_eq!(p.active_layer, LayerType::Copper(2));
    assert_eq!(
        p.layer_assignments,
        vec![("a".to_string(), LayerType::Copper(1)), ("b".to_string(), LayerType::Paste(Side::Bottom))]
    );
    let restored = LayerManager::from_persisted(&p);
    assert_eq!(restored.get_active_layer(), LayerType::Copper(2));
    assert_eq!(restored.get_assignment("a"), Some(&LayerType::Copper(1)));
    assert_eq!(restored.get_assignment("b"), Some(&LayerType::Paste(Side::Bottom)));
    assert_eq!(restored.layer_count(), 0);
    assert_eq!(restored.unassigned_count(), 0);
    assert!(restored.is_dirty());
    let doubled = PersistedLayers {
        active_layer: LayerType::Copper(1),
        layer_assignments: vec![
            ("a".to_string(), LayerType::Copper(1)),
            ("a".to_string(), LayerType::Copper(2)),
        ],
    };
    let once = LayerManager::from_persisted(&doubled);
    assert_eq!(once.assignment_count(), 1);
    assert_eq!(once.get_assignment("a"), Some(&LayerType::Copper(2)));
}

#[test]
fn layer_types_are_listed_in_a_fixed_order() {
    assert_eq!(LayerType::all().len(), 9);
    assert_eq!(LayerType::all()[0], LayerType::Copper(1));
    assert_eq!(LayerType::all()[8], LayerType::MechanicalOutline);
    assert!(LayerType::Copper(1).is_top());
    assert!(LayerType::Copper(5).is_bottom());
    assert!(!LayerType::MechanicalOutline.is_top());
    assert!(!LayerType::MechanicalOutline.is_bottom());
    let mut info = LayerInfo::new(Some(geometry(1, 2, 3, 4)), true);
    info.initialize_coordinates_from_gerber();
    assert_eq!(info.coordinates.unwrap().bounds, BoundingBox::new(Point::new(1, 2), Point::new(3, 4)));
    info.place_at(Point::new(i64::MAX, 0));
    assert_eq!(info.coordinates.unwrap().bounds.max, Point::new(i64::MAX, 4));
}
