//! The menu-bar icon: what its clicks and menu entries ask the application to do.

use vstd::prelude::*;

use crate::text::same_text;

verus! {

/// A request coming from the menu-bar icon or its menu.
#[derive(Debug, Clone, Copy, PartialEq, Eq, Structural)]
pub enum TrayCommand {
    TogglePanel,
    ToggleLaunchAtLogin,
    OpenPermissions,
    Quit,
}

/// Menu entry that shows or hides the overlay.
pub const MENU_ID_TOGGLE: &'static str = "toggle_panel";

/// Menu entry that switches launching at login.
pub const MENU_ID_LAUNCH_AT_LOGIN: &'static str = "toggle_launch_at_login";

/// Menu entry that opens the permission settings.
pub const MENU_ID_PERMISSIONS: &'static str = "open_permissions";

/// Menu entry that quits.
pub const MENU_ID_QUIT: &'static str = "quit_app";

/// The command a menu entry stands for.
pub open spec fn command_for_menu_id(id: Seq<char>) -> Option<TrayCommand> {
    if id == MENU_ID_TOGGLE@ {
        Some(TrayCommand::TogglePanel)
    } else if id == MENU_ID_LAUNCH_AT_LOGIN@ {
        Some(TrayCommand::ToggleLaunchAtLogin)
    } else if id == MENU_ID_PERMISSIONS@ {
        Some(TrayCommand::OpenPermissions)
    } else if id == MENU_ID_QUIT@ {
        Some(TrayCommand::Quit)
    } else {
        None
    }
}

/// The command of the menu entry with identifier `id`; `None` for an unknown entry.
pub fn tray_command_for_menu_id(id: &str) -> (r: Option<TrayCommand>)
    ensures
        r == command_for_menu_id(id@),
{
    if same_text(id, MENU_ID_TOGGLE) {
        Some(TrayCommand::TogglePanel)
    } else if same_text(id, MENU_ID_LAUNCH_AT_LOGIN) {
        Some(TrayCommand::ToggleLaunchAtLogin)
    } else if same_text(id, MENU_ID_PERMISSIONS) {
        Some(TrayCommand::OpenPermissions)
    } else if same_text(id, MENU_ID_QUIT) {
        Some(TrayCommand::Quit)
    } else {
        None
    }
}

/// A click on the icon: releasing the left button toggles the overlay; other clicks do
/// nothing.
pub fn tray_command_for_click(left_button: bool, released: bool) -> (r: Option<TrayCommand>)
    ensures
        r == if left_button && released {
            Some(TrayCommand::TogglePanel)
        } else {
            None::<TrayCommand>
        },
{
    if left_button && released {
        Some(TrayCommand::TogglePanel)
    } else {
        None
    }
}

} // verus!
