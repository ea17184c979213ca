//! Registration of a plugin in the OpenCode TUI configuration.
//!
//! OpenCode reads its terminal interface settings from `tui.json` or `tui.jsonc`.
//! This crate decides how a plugin is looked up, added and removed there, how an edited
//! file is put in place of the old one, and how a Windows access list is copied along.
//! It performs no input or output: callers hand in what they found on disk and carry out
//! what the crate asks for.

pub mod config;
pub mod dacl;
pub mod document;
pub mod entry;
pub mod error;
pub mod laws;
pub mod listing;
pub mod platform;
pub mod plugin_laws;
pub mod stage;
pub mod text;
pub mod write;
pub mod write_laws;
