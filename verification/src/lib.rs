//! Verified core of a keyboard-first application launcher: configuration
//! model, search ranking, paging, layout geometry, menus and the launcher's
//! state transitions. Windows-specific I/O lives outside this crate.
pub mod text;
pub mod config;
pub mod search;
pub mod item_view;
pub mod layout;
pub mod menu;
pub mod hotkey;
pub mod launcher;
pub mod shell;
pub mod sort;
pub mod input;
pub mod keys;
pub mod startup;
pub mod win;
pub mod tray;
pub mod theme;
pub mod text_input;
pub mod render;
pub mod icon_source;
pub mod icon_loader;
pub mod laws;
