use aoiplate::config::{sanitize_hotkey, sanitize_trigger_key, AppConfig};

fn raw_config() -> AppConfig {
    AppConfig {
        trigger_key: 'q',
        double_tap_ms: 50,
        launch_at_login: false,
        hide_completed: true,
        max_visible_plates: 0,
        min_diameter_px: 600,
        max_diameter_px: 900,
        complete_fade_ms: 5000,
        input_hotkey: '1',
        list_mode_hotkey: 'm',
    }
}

#[test]
fn default_config_values() {
    let c = AppConfig::default();
    assert_eq!(c.trigger_key, 'J');
    assert_eq!(c.double_tap_ms, 250);
    assert!(c.launch_at_login);
    assert!(!c.hide_completed);
    assert_eq!(c.max_visible_plates, 40);
    assert_eq!(c.min_diameter_px, 168);
    assert_eq!(c.max_diameter_px, 440);
    assert_eq!(c.complete_fade_ms, 700);
    assert_eq!(c.input_hotkey, 'N');
    assert_eq!(c.list_mode_hotkey, 'M');
}

#[test]
fn sanitize_resets_out_of_range_values() {
    let mut c = raw_config();
    c.sanitize();
    assert_eq!(c.trigger_key, 'Q');
    assert_eq!(c.double_tap_ms, 250);
    assert!(!c.launch_at_login);
    assert!(c.hide_completed);
    assert_eq!(c.max_visible_plates, 40);
    assert_eq!(c.min_diameter_px, 168);
    assert_eq!(c.max_diameter_px, 440);
    assert_eq!(c.complete_fade_ms, 700);
    assert_eq!(c.input_hotkey, 'N');
    assert_eq!(c.list_mode_hotkey, 'M');
}

#[test]
fn sanitize_swaps_crossed_diameters() {
    let mut c = AppConfig::default();
    c.min_diameter_px = 500;
    c.max_diameter_px = 400;
    c.sanitize();
    assert_eq!(c.min_diameter_px, 400);
    assert_eq!(c.max_diameter_px, 500);
}

#[test]
fn sanitize_keeps_boundary_values() {
    let mut c = AppConfig::default();
    c.double_tap_ms = 120;
    c.max_visible_plates = 200;
    c.min_diameter_px = 520;
    c.max_diameter_px = 760;
    c.complete_fade_ms = 3000;
    let before = c;
    c.sanitize();
    assert_eq!(c, before);
    c.double_tap_ms = 601;
    c.complete_fade_ms = 199;
    c.sanitize();
    assert_eq!(c.double_tap_ms, 250);
    assert_eq!(c.complete_fade_ms, 700);
}

#[test]
fn sanitize_twice_equals_once() {
    let mut once = raw_config();
    once.sanitize();
    let mut twice = once;
    twice.sanitize();
    assert_eq!(once, twice);
}

#[test]
fn default_config_is_already_sanitized() {
    let mut c = AppConfig::default();
    c.sanitize();
    assert_eq!(c, AppConfig::default());
}

#[test]
fn hotkeys_are_upper_case_letters_or_fallback() {
    assert_eq!(sanitize_hotkey('a', 'N'), 'A');
    assert_eq!(sanitize_hotkey('Z', 'N'), 'Z');
    assert_eq!(sanitize_hotkey('5', 'N'), 'N');
    assert_eq!(sanitize_hotkey('é', 'M'), 'M');
    assert_eq!(sanitize_trigger_key('k'), 'K');
    assert_eq!(sanitize_trigger_key(' '), 'J');
}
