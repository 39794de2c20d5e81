//! The crew: tasks the player delegates and the First Officer's queue.
pub mod queue;
pub mod task;
