use structure_editor::mode::Mode;
use structure_editor::session::Session;

#[test]
fn initial_state_is_building_with_first_template() {
    let s = Session::new();
    assert_eq!(s.current_mode(), Mode::Building);
    assert_eq!(s.current_template(), 0);
    assert_eq!(s.cursor_sprite(), 0);
}

#[test]
fn selecting_a_template_twice_changes_nothing_more() {
    let mut once = Session::new();
    once.select_erase();
    once.select_template(3);
    let mut twice = Session::new();
    twice.select_erase();
    twice.select_template(3);
    twice.select_template(3);
    assert_eq!(once.current_mode(), twice.current_mode());
    assert_eq!(once.current_template(), twice.current_template());
    assert_eq!(once.cursor_sprite(), twice.cursor_sprite());
    assert_eq!(once.item_count(), twice.item_count());
}

#[test]
fn selecting_a_template_forces_building() {
    let mut s = Session::new();
    s.select_erase();
    assert_eq!(s.current_mode(), Mode::Erasing);
    s.select_template(2);
    assert_eq!(s.current_mode(), Mode::Building);
    assert_eq!(s.current_template(), 2);
}

#[test]
fn erasing_mode_shows_the_eraser_glyph() {
    let mut s = Session::new();
    s.select_template(4);
    assert_eq!(s.cursor_sprite(), 4);
    s.select_erase();
    assert_eq!(s.cursor_sprite(), 6);
    // the selection itself is kept while erasing
    assert_eq!(s.current_template(), 4);
    s.select_template(4);
    assert_eq!(s.cursor_sprite(), 4);
}

#[test]
fn select_erase_is_idempotent() {
    let mut s = Session::new();
    s.select_erase();
    s.select_erase();
    assert_eq!(s.current_mode(), Mode::Erasing);
}
