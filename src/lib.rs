//! A store of reminders: one-off and repeating countdowns and alarms, with a
//! two-phase confirm protocol for destructive requests, undo and redo over
//! full snapshots, and a periodic sweep that expires, repeats and pauses them.
pub mod clock;
pub mod past_event;
pub mod reminder;
pub mod store;
pub mod api;
pub mod laws;
pub mod sweep;
pub mod config;
pub mod status;
