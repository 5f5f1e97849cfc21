//! Verified core of the Cliip Show clipboard HUD: text truncation, settings
//! parsing, localized strings, command-line parsing, LaunchAgent plist handling
//! and bitmap comparison.

pub mod chars;
pub mod cli;
pub mod config;
pub mod error;
pub mod graphemes;
pub mod i18n;
pub mod login_item;
pub mod path;
pub mod png;
pub mod timers;
pub mod settings;
pub mod settings_window;
pub mod single_instance;
pub mod text;
