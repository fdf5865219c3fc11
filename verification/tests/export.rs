use structure_editor::geom::Point;
use structure_editor::mode::template_name;
use structure_editor::numfmt::i64_to_string;
use structure_editor::numfmt::to_pixels;
use structure_editor::session::Session;

#[test]
fn export_round_trip() {
    let mut s = Session::new();
    s.select_template(5);
    s.set_pointer(Point::new(12_900, -3_200));
    assert!(s.place_frame_with(true, 0).is_some());
    s.place_frame_with(false, 0);
    s.select_template(1);
    s.set_pointer(Point::new(100_000, 50_000));
    assert!(s.place_frame_with(true, 0).is_some());
    s.set_weight("1.5");
    let text = s.export_text().unwrap();
    assert_eq!(text, "1.5\n12 -3 planet\n100 50 rainbow\n");
}

#[test]
fn export_blocked_while_weight_invalid() {
    let mut s = Session::new();
    assert!(s.export_text().is_none());
    s.set_weight("not a number");
    assert!(s.export_text().is_none());
    s.set_weight("2");
    assert!(s.export_text().is_some());
}

#[test]
fn truncation_is_toward_zero() {
    assert_eq!(to_pixels(12_900), 12);
    assert_eq!(to_pixels(-3_200), -3);
    assert_eq!(to_pixels(999), 0);
    assert_eq!(to_pixels(-999), 0);
    assert_eq!(to_pixels(-1_000), -1);
    assert_eq!(to_pixels(0), 0);
}

#[test]
fn decimal_rendering_is_exact() {
    assert_eq!(i64_to_string(0), "0");
    assert_eq!(i64_to_string(7), "7");
    assert_eq!(i64_to_string(-7), "-7");
    assert_eq!(i64_to_string(1_234_567_890), "1234567890");
    assert_eq!(i64_to_string(-100), "-100");
}

#[test]
fn template_labels_match_the_palette() {
    assert_eq!(template_name(0), "blackhole");
    assert_eq!(template_name(1), "rainbow");
    assert_eq!(template_name(2), "energybar");
    assert_eq!(template_name(3), "regular");
    assert_eq!(template_name(4), "plane");
    assert_eq!(template_name(5), "planet");
    assert_eq!(template_name(6), "");
    assert_eq!(template_name(99), "");
}

#[test]
fn empty_canvas_exports_only_the_weight_line() {
    let mut s = Session::new();
    s.set_weight("0.25");
    assert_eq!(s.export_text().unwrap(), "0.25\n");
}
