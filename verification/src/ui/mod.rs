//! Terminal user interface state: pane focus, error display and the helpers
//! that render memory for the panes.

pub mod app;
pub mod panes;
