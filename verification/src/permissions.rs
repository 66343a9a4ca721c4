//! The two macOS permissions the global hotkey depends on.

use vstd::prelude::*;

verus! {

/// Whether input monitoring and accessibility access are granted.
#[derive(Debug, Clone, Copy, PartialEq, Eq, Structural)]
pub struct PermissionState {
    pub input_monitoring: bool,
    pub accessibility: bool,
}

/// Whether this process is a trusted accessibility client.
/// Trusted: `macos_accessibility_client::accessibility::application_is_trusted`. The
/// answer is the system's current setting, so nothing is promised of it.
#[verifier::external_body]
fn accessibility_trusted() -> bool {
    macos_accessibility_client::accessibility::application_is_trusted()
}

/// The same question, asking the system to show its permission prompt when access is
/// missing.
/// Trusted: `macos_accessibility_client::accessibility::application_is_trusted_with_prompt`.
/// The answer is the system's current setting, so nothing is promised of it.
#[verifier::external_body]
fn accessibility_trusted_with_prompt() -> bool {
    macos_accessibility_client::accessibility::application_is_trusted_with_prompt()
}

/// The permission state: input monitoring as probed by the caller (whether a keyboard
/// event tap could be created), accessibility as the system reports it.
pub fn detect_permissions(input_monitoring: bool) -> (r: PermissionState)
    ensures
        r.input_monitoring == input_monitoring,
{
    let accessibility = accessibility_trusted();
    PermissionState { input_monitoring, accessibility }
}

/// The permission state on a system without these permissions: neither is granted.
pub fn unsupported_platform_permissions() -> (r: PermissionState)
    ensures
        r == (PermissionState { input_monitoring: false, accessibility: false }),
{
    PermissionState { input_monitoring: false, accessibility: false }
}

/// Asks the system to prompt for accessibility access, unless it is already granted.
pub fn prompt_accessibility_if_needed() {
    if !accessibility_trusted() {
        let _ = accessibility_trusted_with_prompt();
    }
}

/// The System Settings page for accessibility access.
pub const ACCESSIBILITY_SETTINGS_URL: &'static str =
    "x-apple.systempreferences:com.apple.preference.security?Privacy_Accessibility";

/// The System Settings page for input monitoring.
pub const INPUT_MONITORING_SETTINGS_URL: &'static str =
    "x-apple.systempreferences:com.apple.preference.security?Privacy_ListenEvent";

} // verus!
