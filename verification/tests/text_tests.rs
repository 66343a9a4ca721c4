use aoiplate::logging::{log_line, timestamped_log_line, unix_timestamp_ms};
use aoiplate::migration::{
    file_needs_move, migrated_file_names, should_migrate, MigrationReport,
};
use aoiplate::text::{equals_ignore_ascii_case, i64_to_decimal, lowercase_equals, same_text};
use aoiplate::tray::{tray_command_for_click, tray_command_for_menu_id, TrayCommand};

#[test]
fn decimal_forms() {
    assert_eq!(i64_to_decimal(0), "0");
    assert_eq!(i64_to_decimal(1_700_000_000_123), "1700000000123");
    assert_eq!(i64_to_decimal(-45), "-45");
    assert_eq!(i64_to_decimal(i64::MIN), i64::MIN.to_string());
    assert_eq!(i64_to_decimal(i64::MAX), i64::MAX.to_string());
}

#[test]
fn log_lines() {
    assert_eq!(log_line(1234, "save failed"), "[1234] save failed\n");
    assert_eq!(log_line(-1, ""), "[-1] \n");
    let line = timestamped_log_line("x");
    assert!(line.starts_with('[') && line.ends_with("] x\n"));
    assert!(unix_timestamp_ms() > 1_600_000_000_000);
}

#[test]
fn text_comparisons() {
    assert!(same_text("abc", "abc"));
    assert!(!same_text("abc", "abd"));
    assert!(lowercase_equals("LiSt", "list"));
    assert!(!lowercase_equals("lists", "list"));
    assert!(equals_ignore_ascii_case("PNG", "png"));
    assert!(!equals_ignore_ascii_case("pn", "png"));
}

#[test]
fn tray_menu_ids_map_to_commands() {
    assert_eq!(tray_command_for_menu_id("toggle_panel"), Some(TrayCommand::TogglePanel));
    assert_eq!(
        tray_command_for_menu_id("toggle_launch_at_login"),
        Some(TrayCommand::ToggleLaunchAtLogin)
    );
    assert_eq!(tray_command_for_menu_id("open_permissions"), Some(TrayCommand::OpenPermissions));
    assert_eq!(tray_command_for_menu_id("quit_app"), Some(TrayCommand::Quit));
    assert_eq!(tray_command_for_menu_id("other"), None);
}

#[test]
fn only_left_release_toggles() {
    assert_eq!(tray_command_for_click(true, true), Some(TrayCommand::TogglePanel));
    assert_eq!(tray_command_for_click(true, false), None);
    assert_eq!(tray_command_for_click(false, true), None);
}

#[test]
fn migration_decisions() {
    assert!(should_migrate(false, true));
    assert!(!should_migrate(true, true));
    assert!(!should_migrate(false, false));
    assert_eq!(migrated_file_names(), vec!["todos.json", "config.json", "error.log"]);
    assert!(file_needs_move(true, false));
    assert!(!file_needs_move(true, true));
    assert!(!file_needs_move(false, false));
}

#[test]
fn migration_report_collects_warnings() {
    let mut report = MigrationReport::new();
    assert!(!report.migrated);
    let w = report.record_failure("/old/todos.json", "/new/todos.json", "denied");
    assert_eq!(w, "migration warning: failed to move /old/todos.json -> /new/todos.json: denied");
    assert!(!report.migrated);
    report.record_moved();
    assert!(report.migrated);
    assert_eq!(report.warnings, vec![w]);
}
