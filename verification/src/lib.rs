//! Verified core of AoiPlate, a menu-bar todo overlay: configuration sanitising,
//! todo bookkeeping, the double-tap hotkey detector, the overlay/runtime state
//! machine and the text and script builders that feed the web panel.

pub mod config;
pub mod hotkey;
pub mod logging;
pub mod migration;
pub mod panel;
pub mod permissions;
pub mod runtime;
pub mod storage;
pub mod text;
pub mod tray;
