//! Flight phases and the simulation's discrete state.
pub mod phase;
pub mod simulation;
