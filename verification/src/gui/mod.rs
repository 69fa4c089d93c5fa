//! Decisions of the desktop client: what its views show and what its controls do.

pub mod actions;
pub mod compose;
pub mod notifier;
pub mod state;
pub mod supervisor;
pub mod tray;
pub mod view;
