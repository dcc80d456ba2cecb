//! The logic of a terminal workspace: key encoding, layout, sessions, search, the command line
//! and the texts of the interface, each with a contract that says what it computes.

pub mod build_id;
pub mod cli;
pub mod clipboard;
pub mod colors;
pub mod command_history;
pub mod command_palette;
pub mod gui_ipc;
pub mod i18n;
pub mod icons;
pub mod ids;
pub mod images;
pub mod input_latency;
pub mod keybindings;
pub mod layout;
pub mod list_colors;
pub mod list_themes;
pub mod markdown;
pub mod order;
pub mod osc;
pub mod paths;
pub mod pointer;
pub mod preview;
pub mod processes;
pub mod projects;
pub mod search;
pub mod sessions;
pub mod sidebar;
pub mod tabs;
pub mod terminal_input;
pub mod terminals;
pub mod text;
pub mod themes;
pub mod tui;
pub mod updates;
pub mod watchers;
pub mod window;
pub mod workspace;
