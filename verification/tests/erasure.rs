use structure_editor::erasure::Marker;
use structure_editor::erasure::resolve_topmost;
use structure_editor::session::Session;

#[test]
fn topmost_depth_wins() {
    let pressed = vec![
        Marker { item: 10, depth: 5 },
        Marker { item: 11, depth: 42 },
        Marker { item: 12, depth: 17 },
    ];
    assert_eq!(resolve_topmost(&pressed), Some(1));
}

#[test]
fn depth_tie_goes_to_first_pressed() {
    let pressed = vec![
        Marker { item: 1, depth: 9 },
        Marker { item: 2, depth: 9 },
        Marker { item: 3, depth: 3 },
    ];
    assert_eq!(resolve_topmost(&pressed), Some(0));
}

#[test]
fn nothing_pressed_resolves_to_nothing() {
    let pressed: Vec<Marker> = Vec::new();
    assert_eq!(resolve_topmost(&pressed), None);
}

#[test]
fn minimum_depth_is_still_selected() {
    let pressed = vec![Marker { item: 4, depth: i64::MIN }];
    assert_eq!(resolve_topmost(&pressed), Some(0));
}

#[test]
fn erase_removes_only_the_topmost_item() {
    let mut s = Session::new();
    // depths: 900500, 901000, 900700 for ids 0, 1, 2
    assert!(s.place_frame_with(true, 500).is_some());
    s.place_frame_with(false, 0);
    assert!(s.place_frame_with(true, 0).is_some());
    s.place_frame_with(false, 0);
    assert!(s.place_frame_with(true, 300).is_some());
    s.select_erase();
    let removed = s.erase_tick(&vec![0u64, 1, 2]);
    assert_eq!(removed, Some(1));
    assert_eq!(s.item_count(), 2);
    assert_eq!(s.get_item(0).id, 0);
    assert_eq!(s.get_item(1).id, 2);
}

#[test]
fn erase_removes_item_and_marker_together() {
    let mut s = Session::new();
    assert!(s.place_frame_with(true, 9).is_some());
    s.place_frame_with(false, 0);
    assert!(s.place_frame_with(true, 4).is_some());
    s.select_erase();
    let removed = s.erase_tick(&vec![0u64]);
    assert_eq!(removed, Some(0));
    assert_eq!(s.item_count(), 1);
    assert_eq!(s.marker_count(), 1);
    assert_eq!(s.get_item(0).id, 1);
    assert_eq!(s.get_marker(0).item, 1);
}

#[test]
fn erase_outside_erasing_mode_is_a_no_op() {
    let mut s = Session::new();
    assert!(s.place_frame_with(true, 0).is_some());
    let removed = s.erase_tick(&vec![0u64]);
    assert_eq!(removed, None);
    assert_eq!(s.item_count(), 1);
}

#[test]
fn unknown_pressed_identities_are_ignored() {
    let mut s = Session::new();
    assert!(s.place_frame_with(true, 0).is_some());
    s.select_erase();
    assert_eq!(s.erase_tick(&vec![55u64, 77]), None);
    assert_eq!(s.item_count(), 1);
    assert_eq!(s.erase_tick(&vec![55u64, 0]), Some(0));
    assert_eq!(s.item_count(), 0);
    assert_eq!(s.marker_count(), 0);
}

#[test]
fn one_erase_per_frame_even_when_all_pressed() {
    let mut s = Session::new();
    for k in 0..4u32 {
        assert!(s.place_frame_with(true, k).is_some());
        s.place_frame_with(false, 0);
    }
    s.select_erase();
    assert!(s.erase_tick(&vec![0u64, 1, 2, 3]).is_some());
    assert_eq!(s.item_count(), 3);
}
