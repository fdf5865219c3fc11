use structure_editor::geom::Point;
use structure_editor::geom::Rect;
use structure_editor::geom::overlaps_ui;
use structure_editor::session::screen_to_world;

#[test]
fn point_inside_rect_blocks() {
    // a 100x40 pixel rectangle centered at the origin
    let r = Rect::new(0, 0, 50_000, 20_000);
    assert!(r.blocks(&Point::new(0, 0)));
    assert!(r.blocks(&Point::new(49_000, -19_000)));
    assert!(r.blocks(&Point::new(-49_000, 19_000)));
}

#[test]
fn point_outside_rect_does_not_block() {
    let r = Rect::new(0, 0, 50_000, 20_000);
    assert!(!r.blocks(&Point::new(60_000, 0)));
    assert!(!r.blocks(&Point::new(0, -30_000)));
    assert!(!r.blocks(&Point::new(-51_000, 21_000)));
}

#[test]
fn rect_edge_overlap_is_strict() {
    let r = Rect::new(0, 0, 50_000, 20_000);
    // the pointer footprint is one pixel square, so its half-extent is
    // half a pixel: at exactly half_w + 500 the strict overlap vanishes
    assert!(r.blocks(&Point::new(50_499, 0)));
    assert!(!r.blocks(&Point::new(50_500, 0)));
    assert!(r.blocks(&Point::new(0, 20_499)));
    assert!(!r.blocks(&Point::new(0, 20_500)));
}

#[test]
fn overlaps_ui_scans_all_obstacles() {
    let obstacles = vec![
        Rect::new(-100_000, 0, 10_000, 10_000),
        Rect::new(100_000, 0, 10_000, 10_000),
    ];
    assert!(overlaps_ui(&Point::new(-100_000, 0), &obstacles));
    assert!(overlaps_ui(&Point::new(100_000, 5_000), &obstacles));
    assert!(!overlaps_ui(&Point::new(0, 0), &obstacles));
    let none: Vec<Rect> = Vec::new();
    assert!(!overlaps_ui(&Point::new(0, 0), &none));
}

#[test]
fn window_coordinates_map_to_centered_canvas() {
    // a 1920x1080 pixel window, in sub-pixel units
    let p = screen_to_world(0, 0, 1_920_000, 1_080_000);
    assert_eq!((p.x, p.y), (-960_000, 540_000));
    let center = screen_to_world(960_000, 540_000, 1_920_000, 1_080_000);
    assert_eq!((center.x, center.y), (0, 0));
    let corner = screen_to_world(1_920_000, 1_080_000, 1_920_000, 1_080_000);
    assert_eq!((corner.x, corner.y), (960_000, -540_000));
}
