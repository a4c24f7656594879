//! Editor panel state: asset browser, console log, terrain brushes.

pub mod asset_browser;
pub mod console_panel;
pub mod menu;
pub mod terrain_panel;
