//! A keyboard-driven three-pane file browser: the modal input state
//! machine, the pane and selection model, the preview engine, the search
//! engine, and the file operation engine, specified and verified against
//! a snapshot model of the filesystem.

pub mod fs_model;
pub mod fs_utils;
pub mod input;
pub mod input_handlers;
pub mod paths;
pub mod preview;
pub mod state;
pub mod text;
pub mod ui;
