//! A single unit of work the FO can perform ("Read QRH", "Flaps 15",
//! "Landing Checklist", ...).
use vstd::prelude::*;
use crate::sim_core::ids::TaskId;
use crate::sim_core::time::Duration;

verus! {

/// What a task is tied to, if anything: lets the simulation react when a
/// task completes (e.g. marking a checklist item done).
#[derive(Debug, Clone, Copy, PartialEq, Eq, Structural)]
pub enum TaskSource {
    /// Not tied to any tracked system.
    Adhoc,
    /// Index into the active checklist's items.
    ChecklistItem(usize),
}

#[derive(Debug, Clone, PartialEq)]
pub struct Task {
    pub id: TaskId,
    pub description: String,
    /// How long a fully experienced FO takes; the FO's actual pace
    /// scales this.
    pub base_duration: Duration,
    pub source: TaskSource,
}

impl Task {
    pub fn new(id: TaskId, description: String, base_duration: Duration, source: TaskSource) -> (r:
        Task)
        ensures
            r.id == id,
            r.description@ == description@,
            r.base_duration == base_duration,
            r.source == source,
    {
        Task { id, description, base_duration, source }
    }
}

} // verus!
