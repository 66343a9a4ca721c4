use aoiplate::hotkey::{
    key_byte, keycode_letter, next_tap_location, normalize_key, read_trigger_letter,
    set_trigger_key, tap_failure_message, trigger_key_atomic, KeyPress, TapLocation, TapState,
};

const WINDOW: u128 = 250_000_000;

fn press(at_ns: u128) -> KeyPress {
    KeyPress { is_trigger: true, modifier_free: true, autorepeat: false, at_ns }
}

#[test]
fn keys_normalize_to_letters() {
    assert_eq!(normalize_key('j'), 'J');
    assert_eq!(normalize_key('X'), 'X');
    assert_eq!(normalize_key('!'), 'J');
    assert_eq!(key_byte('a'), b'A');
    assert_eq!(keycode_letter('z'), 'Z');
    assert_eq!(keycode_letter('7'), 'J');
}

#[test]
fn trigger_cell_holds_the_letter() {
    let cell = trigger_key_atomic('k');
    assert_eq!(read_trigger_letter(&cell), 'K');
    set_trigger_key(&cell, 'm');
    assert_eq!(read_trigger_letter(&cell), 'M');
    set_trigger_key(&cell, '#');
    assert_eq!(read_trigger_letter(&cell), 'J');
}

#[test]
fn double_tap_toggles_once() {
    let mut s = TapState::new();
    assert!(!s.on_key_down(press(0), WINDOW));
    s.on_key_up(true);
    assert!(s.on_key_down(press(200_000_000), WINDOW));
    assert_eq!(s.last_tap, None);
    s.on_key_up(true);
    assert!(!s.on_key_down(press(300_000_000), WINDOW));
    assert_eq!(s.last_tap, Some(300_000_000));
}

#[test]
fn slow_taps_do_not_toggle() {
    let mut s = TapState::new();
    assert!(!s.on_key_down(press(0), WINDOW));
    s.on_key_up(true);
    assert!(!s.on_key_down(press(WINDOW + 1), WINDOW));
    assert_eq!(s.last_tap, Some(WINDOW + 1));
}

#[test]
fn exactly_the_window_still_toggles() {
    let mut s = TapState::new();
    s.on_key_down(press(10), WINDOW);
    s.on_key_up(true);
    assert!(s.on_key_down(press(10 + WINDOW), WINDOW));
}

#[test]
fn held_key_and_other_presses_are_ignored() {
    let mut s = TapState::new();
    assert!(!s.on_key_down(press(0), WINDOW));
    assert!(!s.on_key_down(press(10), WINDOW));
    let before = s;
    let mut other = press(20);
    other.is_trigger = false;
    assert!(!s.on_key_down(other, WINDOW));
    s.on_key_up(false);
    assert_eq!(s, before);
    s.on_key_up(true);
    let mut modified = press(30);
    modified.modifier_free = false;
    assert!(!s.on_key_down(modified, WINDOW));
    let mut repeat = press(40);
    repeat.autorepeat = true;
    assert!(!s.on_key_down(repeat, WINDOW));
    assert!(s.on_key_down(press(50), WINDOW));
}

#[test]
fn clock_going_backwards_counts_as_no_time() {
    let mut s = TapState::new();
    s.on_key_down(press(1_000), WINDOW);
    s.on_key_up(true);
    assert!(s.on_key_down(press(500), WINDOW));
}

#[test]
fn tap_locations_are_tried_in_order() {
    assert_eq!(next_tap_location(None), Some(TapLocation::Session));
    assert_eq!(next_tap_location(Some(TapLocation::Session)), Some(TapLocation::Hid));
    assert_eq!(next_tap_location(Some(TapLocation::Hid)), None);
    assert_eq!(tap_failure_message(), "hotkey listener failed: unable to create CGEventTap");
}
