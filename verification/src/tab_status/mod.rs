//! What the tab of a terminal shows of the current activity.
pub mod command;
pub mod detail;
pub mod output;
pub mod state;
