//! Tracks the state of each clearance type. Every request is granted
//! immediately: there is no traffic or weather model yet to justify a
//! hold or a denial.
use vstd::prelude::*;
use std::collections::HashMap;
use crate::atc::constraints::ClearanceType;

verus! {

broadcast use vstd::std_specs::hash::group_hash_axioms;

#[derive(Debug, Clone, Copy, PartialEq, Eq, Structural)]
pub enum ClearanceState {
    NotRequested,
    Granted,
}

/// The key a clearance type is filed under.
pub open spec fn clearance_code(c: ClearanceType) -> u8 {
    match c {
        ClearanceType::Pushback => 0,
        ClearanceType::Taxi => 1,
        ClearanceType::Takeoff => 2,
        ClearanceType::Descend => 3,
        ClearanceType::Approach => 4,
        ClearanceType::Landing => 5,
    }
}

fn code_of(c: ClearanceType) -> (r: u8)
    ensures
        r == clearance_code(c),
{
    match c {
        ClearanceType::Pushback => 0,
        ClearanceType::Taxi => 1,
        ClearanceType::Takeoff => 2,
        ClearanceType::Descend => 3,
        ClearanceType::Approach => 4,
        ClearanceType::Landing => 5,
    }
}

#[derive(Debug, Clone)]
pub struct Controller {
    clearances: HashMap<u8, ClearanceState>,
}

impl Controller {
    /// The state of clearance `c`: whatever was recorded for it, or not
    /// requested if nothing was.
    pub closed spec fn spec_state(self, c: ClearanceType) -> ClearanceState {
        if self.clearances@.contains_key(clearance_code(c)) {
            self.clearances@[clearance_code(c)]
        } else {
            ClearanceState::NotRequested
        }
    }

    pub fn new() -> (r: Controller)
        ensures
            forall|c: ClearanceType| #[trigger] r.spec_state(c) == ClearanceState::NotRequested,
    {
        Controller { clearances: HashMap::new() }
    }

    /// Request a clearance. Always grants it today. Returns the resulting
    /// state; no other clearance changes.
    pub fn request(&mut self, clearance: ClearanceType) -> (r: ClearanceState)
        ensures
            r == ClearanceState::Granted,
            final(self).spec_state(clearance) == ClearanceState::Granted,
            forall|d: ClearanceType|
                d != clearance ==> #[trigger] final(self).spec_state(d) == old(self).spec_state(d),
    {
        let code = code_of(clearance);
        self.clearances.insert(code, ClearanceState::Granted);
        assert forall|d: ClearanceType| d != clearance implies clearance_code(d) != code by {}
        ClearanceState::Granted
    }

    pub fn state(&self, clearance: ClearanceType) -> (r: ClearanceState)
        ensures
            r == self.spec_state(clearance),
    {
        let code = code_of(clearance);
        match self.clearances.get(&code) {
            Some(s) => *s,
            None => ClearanceState::NotRequested,
        }
    }

    pub fn is_granted(&self, clearance: ClearanceType) -> (r: bool)
        ensures
            r == (self.spec_state(clearance) == ClearanceState::Granted),
    {
        self.state(clearance) == ClearanceState::Granted
    }
}

impl Default for Controller {
    fn default() -> (r: Controller)
        ensures
            forall|c: ClearanceType| #[trigger] r.spec_state(c) == ClearanceState::NotRequested,
    {
        Controller::new()
    }
}

} // verus!
