use structure_editor::geom::Point;
use structure_editor::geom::Rect;
use structure_editor::mode::Mode;
use structure_editor::session::Session;

#[test]
fn held_press_spawns_exactly_once() {
    let mut s = Session::new();
    let mut spawned: usize = 0;
    for k in 0..10u32 {
        if s.place_frame_with(true, k).is_some() {
            spawned += 1;
        }
    }
    assert_eq!(spawned, 1);
    assert_eq!(s.item_count(), 1);
}

#[test]
fn release_rearms_for_one_more_spawn() {
    let mut s = Session::new();
    assert!(s.place_frame_with(true, 0).is_some());
    assert!(s.place_frame_with(true, 0).is_none());
    // one released frame clears the latch
    assert!(s.place_frame_with(false, 0).is_none());
    assert!(s.place_frame_with(true, 0).is_some());
    assert!(s.place_frame_with(true, 0).is_none());
    assert_eq!(s.item_count(), 2);
}

#[test]
fn pointer_over_ui_never_spawns() {
    let mut s = Session::new();
    s.add_obstacle(Rect::new(0, 0, 50_000, 50_000));
    s.set_pointer(Point::new(10_000, -10_000));
    for k in 0..5u32 {
        assert!(s.place_frame_with(true, k).is_none());
    }
    assert_eq!(s.item_count(), 0);
}

#[test]
fn ui_occlusion_leaves_latch_clear_so_dragging_off_spawns() {
    let mut s = Session::new();
    s.add_obstacle(Rect::new(0, 0, 50_000, 50_000));
    s.set_pointer(Point::new(0, 0));
    assert!(s.place_frame_with(true, 0).is_none());
    // still held, now clear of the obstacle: the press may still spawn
    s.set_pointer(Point::new(200_000, 0));
    assert!(s.place_frame_with(true, 0).is_some());
    assert_eq!(s.item_count(), 1);
}

#[test]
fn erasing_mode_places_nothing() {
    let mut s = Session::new();
    s.select_erase();
    assert!(s.place_frame_with(true, 0).is_none());
    assert_eq!(s.item_count(), 0);
    s.select_template(2);
    assert_eq!(s.current_mode(), Mode::Building);
    assert!(s.place_frame_with(true, 0).is_some());
}

#[test]
fn spawned_item_takes_cursor_position_and_template() {
    let mut s = Session::new();
    s.select_template(4);
    s.set_pointer(Point::new(-7_500, 42_000));
    let id = s.place_frame_with(true, 123).unwrap();
    assert_eq!(id, 0);
    let it = s.get_item(0);
    assert_eq!(it.id, 0);
    assert_eq!(it.x, -7_500);
    assert_eq!(it.y, 42_000);
    assert_eq!(it.template, 4);
    // depth = cursor depth - perturbation + one pixel
    assert_eq!(it.depth, 900_000 - 123 + 1_000);
}

#[test]
fn random_perturbation_stays_in_range() {
    // the drawn perturbation lies in [0, 100000), so the item depth lies
    // in (cursor_depth - 100000 + 1000, cursor_depth + 1000]
    for _ in 0..50 {
        let mut s = Session::new();
        assert!(s.place_frame(true).is_some());
        let d = s.get_item(0).depth;
        assert!(d >= 900_000 - 99_999 + 1_000);
        assert!(d <= 900_000 + 1_000);
    }
}

#[test]
fn marker_is_paired_at_spawn() {
    let mut s = Session::new();
    let id = s.place_frame_with(true, 77).unwrap();
    assert_eq!(s.marker_count(), 1);
    let m = s.get_marker(0);
    assert_eq!(m.item, id);
    assert_eq!(m.depth, s.get_item(0).depth);
}
