//! Shared simulation vocabulary: time, ticks, ids, events, commands, errors.
pub mod command;
pub mod errors;
pub mod event;
pub mod event_bus;
pub mod ids;
pub mod tick;
pub mod time;
