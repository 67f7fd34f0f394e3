//! Pane state and the rendering helpers that need no terminal.

pub mod heap;
pub mod input;
pub mod source;
pub mod stack;
pub mod status;
pub mod terminal;
pub mod utils;
