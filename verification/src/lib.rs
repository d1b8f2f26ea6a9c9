//! The logic of a GPU terminal emulator's window: hotkeys, colors, text
//! fields, menus, tabs, the SSH session dialog and connection decisions,
//! saved sessions, the OpenSSH client configuration, shell detection, and
//! the event-loop decisions that tie them together.
pub mod cells;
pub mod colors;
pub mod controller;
pub mod dropdown;
pub mod hits;
pub mod hotkeys;
pub mod layout;
pub mod native_menu;
pub mod panel;
pub mod paths;
pub mod saved_sessions;
pub mod screenshot;
pub mod shells;
pub mod ssh;
pub mod ssh_config;
pub mod ssh_dialog;
pub mod ssh_session;
pub mod tab_bar;
pub mod tabs;
pub mod terminal_panel;
pub mod text;
pub mod widgets;
