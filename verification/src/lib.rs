//! Verified core of a terminal organizer for tmux sessions, windows and panes.

pub mod text;
pub mod model;
pub mod order;
pub mod tmux;
pub mod app;
pub mod ui;
