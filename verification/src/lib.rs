//! Quick-capture memo library: entry store, command parsing, classification.

pub mod hotkey;
pub mod text;
pub mod command;
pub mod classifier;
pub mod clock;
pub mod resurface;
pub mod db;
pub mod store;
pub mod tray;
pub mod view;
