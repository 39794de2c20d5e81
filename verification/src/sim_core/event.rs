//! The event vocabulary subsystems use to talk to each other: a subsystem
//! only publishes events describing what happened and reacts to events it
//! subscribes to; it never reaches into another subsystem's state.
use vstd::prelude::*;
use crate::sim_core::time::SimTime;

verus! {

#[derive(Debug, Clone, Copy, PartialEq, Eq, Structural)]
pub enum Event {
    /// Published by the sim loop at the end of every tick.
    Tick { at: SimTime },
    /// Published once when the simulation starts running.
    SimulationStarted,
    /// Published once when the simulation loop exits.
    SimulationStopped { at: SimTime },
}

} // verus!
