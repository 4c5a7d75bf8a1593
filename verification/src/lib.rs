//! Gitover: the verified core of a terminal overview of many git repositories.
pub mod app;
pub mod app_focus;
pub mod app_laws;
pub mod app_history;
pub mod app_log;
pub mod app_menus;
pub mod app_sections;
pub mod cli;
pub mod config;
pub mod git;
pub mod keys;
pub mod layout;
pub mod mouse;
pub mod ops;
pub mod order;
pub mod panes;
pub mod persist;
pub mod scan;
pub mod scan_laws;
pub mod state;
pub mod state_laws;
pub mod text;
pub mod utils;
pub mod watcher;

pub use cli::parse_path_flag;
