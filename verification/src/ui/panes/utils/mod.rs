//! Helpers that turn memory and types into text for the panes.

pub mod formatting;
pub mod memory;
pub mod rendering;
