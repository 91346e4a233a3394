//! Verified core of cdir: the directory-history and shortcut logic behind
//! the terminal user interface.
pub mod store;
pub mod text;
pub mod tui;
pub mod display;
pub mod theme;
pub mod ranking;
pub mod history_view_container;
pub mod list_indicator_view;
pub mod search_text_view;
pub mod shortcut_view_container;
pub mod tableview;
pub mod fuzzy;
pub mod query;
pub mod model;
pub mod config_view;
pub mod shortcut_editor;
pub mod help;
pub mod confirmation;
pub mod expimp;
pub mod setup;
pub mod ansi;
