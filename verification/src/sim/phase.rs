//! Flight phase state machine.
//!
//! Every transition follows from a real, observable condition (an ATC
//! clearance grant, an altitude crossing, an engine spool-up, or an
//! explicit player command), never a timer. The altitude and thrust
//! conditions arrive as facts measured by the caller each tick.
use vstd::prelude::*;
use crate::atc::constraints::ClearanceType;
use crate::atc::controller::{ClearanceState, Controller};

verus! {

#[derive(Debug, Clone, Copy, PartialEq, Eq, Structural)]
pub enum FlightPhase {
    Ground,
    Taxi,
    TakeoffHold,
    Takeoff,
    Climb,
    Cruise,
    Descent,
    Approach,
    Landing,
    GoAround,
    TaxiToGate,
    Shutdown,
}

pub open spec fn phase_name(p: FlightPhase) -> Seq<char> {
    match p {
        FlightPhase::Ground => "GROUND"@,
        FlightPhase::Taxi => "TAXI"@,
        FlightPhase::TakeoffHold => "TAKEOFF HOLD"@,
        FlightPhase::Takeoff => "TAKEOFF"@,
        FlightPhase::Climb => "CLIMB"@,
        FlightPhase::Cruise => "CRUISE"@,
        FlightPhase::Descent => "DESCENT"@,
        FlightPhase::Approach => "APPROACH"@,
        FlightPhase::Landing => "LANDING"@,
        FlightPhase::GoAround => "GO-AROUND"@,
        FlightPhase::TaxiToGate => "TAXI TO GATE"@,
        FlightPhase::Shutdown => "SHUTDOWN"@,
    }
}

impl FlightPhase {
    pub fn name(&self) -> (r: &'static str)
        ensures
            r@ == phase_name(*self),
    {
        match self {
            FlightPhase::Ground => "GROUND",
            FlightPhase::Taxi => "TAXI",
            FlightPhase::TakeoffHold => "TAKEOFF HOLD",
            FlightPhase::Takeoff => "TAKEOFF",
            FlightPhase::Climb => "CLIMB",
            FlightPhase::Cruise => "CRUISE",
            FlightPhase::Descent => "DESCENT",
            FlightPhase::Approach => "APPROACH",
            FlightPhase::Landing => "LANDING",
            FlightPhase::GoAround => "GO-AROUND",
            FlightPhase::TaxiToGate => "TAXI TO GATE",
            FlightPhase::Shutdown => "SHUTDOWN",
        }
    }
}

/// The measured conditions the automatic transitions read, each taken
/// from the aircraft's state this tick.
#[derive(Debug, Clone, Copy, PartialEq, Eq, Structural)]
pub struct PhaseInputs {
    /// Engine N1 is at or above the takeoff-roll threshold (50%).
    pub takeoff_thrust: bool,
    /// Altitude is more than the ground margin (10 ft) above the runway.
    pub above_ground_margin: bool,
    /// Altitude is within the ground margin (10 ft) of the runway.
    pub within_ground_margin: bool,
    /// Altitude is at or above cruise altitude (3000 ft).
    pub at_cruise_altitude: bool,
    /// Altitude is within the landing margin (500 ft) above the runway.
    pub within_landing_margin: bool,
    /// The aircraft has climbed the go-around gain (500 ft) above where
    /// the current go-around began.
    pub go_around_gain_reached: bool,
}

pub open spec fn granted(atc: Controller, c: ClearanceType) -> bool {
    atc.spec_state(c) == ClearanceState::Granted
}

/// The phase an automatic check moves to from `p`, if its trigger holds.
pub open spec fn next_phase(p: FlightPhase, atc: Controller, f: PhaseInputs) -> Option<
    FlightPhase,
> {
    match p {
        FlightPhase::Ground => if granted(atc, ClearanceType::Taxi) {
            Some(FlightPhase::Taxi)
        } else {
            None
        },
        FlightPhase::Taxi => if granted(atc, ClearanceType::Takeoff) {
            Some(FlightPhase::TakeoffHold)
        } else {
            None
        },
        FlightPhase::TakeoffHold => if granted(atc, ClearanceType::Takeoff) && f.takeoff_thrust {
            Some(FlightPhase::Takeoff)
        } else {
            None
        },
        FlightPhase::Takeoff => if f.above_ground_margin {
            Some(FlightPhase::Climb)
        } else {
            None
        },
        FlightPhase::Climb => if f.at_cruise_altitude {
            Some(FlightPhase::Cruise)
        } else {
            None
        },
        FlightPhase::Cruise => if granted(atc, ClearanceType::Descend) {
            Some(FlightPhase::Descent)
        } else {
            None
        },
        FlightPhase::Descent => if granted(atc, ClearanceType::Approach) {
            Some(FlightPhase::Approach)
        } else {
            None
        },
        FlightPhase::Approach => if granted(atc, ClearanceType::Landing)
            && f.within_landing_margin {
            Some(FlightPhase::Landing)
        } else {
            None
        },
        FlightPhase::Landing => if f.within_ground_margin {
            Some(FlightPhase::TaxiToGate)
        } else {
            None
        },
        FlightPhase::GoAround => if f.go_around_gain_reached {
            Some(FlightPhase::Climb)
        } else {
            None
        },
        FlightPhase::TaxiToGate => None,
        FlightPhase::Shutdown => None,
    }
}

/// The documented phase graph's automatic edges.
pub open spec fn automatic_successor(p: FlightPhase) -> Option<FlightPhase> {
    match p {
        FlightPhase::Ground => Some(FlightPhase::Taxi),
        FlightPhase::Taxi => Some(FlightPhase::TakeoffHold),
        FlightPhase::TakeoffHold => Some(FlightPhase::Takeoff),
        FlightPhase::Takeoff => Some(FlightPhase::Climb),
        FlightPhase::Climb => Some(FlightPhase::Cruise),
        FlightPhase::Cruise => Some(FlightPhase::Descent),
        FlightPhase::Descent => Some(FlightPhase::Approach),
        FlightPhase::Approach => Some(FlightPhase::Landing),
        FlightPhase::Landing => Some(FlightPhase::TaxiToGate),
        FlightPhase::GoAround => Some(FlightPhase::Climb),
        FlightPhase::TaxiToGate => None,
        FlightPhase::Shutdown => None,
    }
}

pub open spec fn go_around_rejection(p: FlightPhase) -> Seq<char> {
    "go-around only makes sense during approach or landing, currently "@ + phase_name(p)
}

pub open spec fn shutdown_rejection(p: FlightPhase) -> Seq<char> {
    "nothing to shut down -- currently "@ + phase_name(p) + ", not taxied to gate"@
}

pub struct PhaseTracker {
    current: FlightPhase,
}

impl PhaseTracker {
    pub closed spec fn phase(self) -> FlightPhase {
        self.current
    }

    /// A new flight starts parked on the ground.
    pub fn new() -> (r: PhaseTracker)
        ensures
            r.phase() == FlightPhase::Ground,
    {
        PhaseTracker { current: FlightPhase::Ground }
    }

    pub fn current(&self) -> (r: FlightPhase)
        ensures
            r == self.phase(),
    {
        self.current
    }

    /// Check whether the current phase's automatic transition condition
    /// holds, and advance if so. Returns the new phase if a transition
    /// happened.
    pub fn tick(&mut self, atc: &Controller, inputs: &PhaseInputs) -> (r: Option<FlightPhase>)
        ensures
            r == next_phase(old(self).phase(), *atc, *inputs),
            final(self).phase() == match r {
                Some(p) => p,
                None => old(self).phase(),
            },
    {
        let next = match self.current {
            FlightPhase::Ground => if atc.is_granted(ClearanceType::Taxi) {
                Some(FlightPhase::Taxi)
            } else {
                None
            },
            FlightPhase::Taxi => if atc.is_granted(ClearanceType::Takeoff) {
                Some(FlightPhase::TakeoffHold)
            } else {
                None
            },
            FlightPhase::TakeoffHold => if atc.is_granted(ClearanceType::Takeoff)
                && inputs.takeoff_thrust {
                Some(FlightPhase::Takeoff)
            } else {
                None
            },
            FlightPhase::Takeoff => if inputs.above_ground_margin {
                Some(FlightPhase::Climb)
            } else {
                None
            },
            FlightPhase::Climb => if inputs.at_cruise_altitude {
                Some(FlightPhase::Cruise)
            } else {
                None
            },
            FlightPhase::Cruise => if atc.is_granted(ClearanceType::Descend) {
                Some(FlightPhase::Descent)
            } else {
                None
            },
            FlightPhase::Descent => if atc.is_granted(ClearanceType::Approach) {
                Some(FlightPhase::Approach)
            } else {
                None
            },
            FlightPhase::Approach => if atc.is_granted(ClearanceType::Landing)
                && inputs.within_landing_margin {
                Some(FlightPhase::Landing)
            } else {
                None
            },
            FlightPhase::Landing => if inputs.within_ground_margin {
                Some(FlightPhase::TaxiToGate)
            } else {
                None
            },
            FlightPhase::GoAround => if inputs.go_around_gain_reached {
                Some(FlightPhase::Climb)
            } else {
                None
            },
            // TaxiToGate only advances via an explicit SHUTDOWN command,
            // and Shutdown is terminal.
            FlightPhase::TaxiToGate => None,
            FlightPhase::Shutdown => None,
        };
        if let Some(p) = next {
            self.current = p;
        }
        next
    }

    /// Explicit player command: abandon the approach or landing and climb
    /// away. Rejected, with a reason, outside Approach and Landing.
    pub fn go_around(&mut self) -> (r: Result<FlightPhase, String>)
        ensures
            (old(self).phase() == FlightPhase::Approach || old(self).phase()
                == FlightPhase::Landing) ==> r == Ok::<FlightPhase, String>(FlightPhase::GoAround)
                && final(self).phase() == FlightPhase::GoAround,
            !(old(self).phase() == FlightPhase::Approach || old(self).phase()
                == FlightPhase::Landing) ==> r.is_err() && r.unwrap_err()@ == go_around_rejection(
                old(self).phase(),
            ) && final(self).phase() == old(self).phase(),
    {
        match self.current {
            FlightPhase::Approach | FlightPhase::Landing => {
                self.current = FlightPhase::GoAround;
                Ok(FlightPhase::GoAround)
            },
            other => {
                let msg = String::from_str(
                    "go-around only makes sense during approach or landing, currently ",
                );
                Err(msg.concat(other.name()))
            },
        }
    }

    /// Explicit player command: shut the aircraft down once it has taxied in. Only
    /// valid from TaxiToGate.
    pub fn shutdown(&mut self) -> (r: Result<FlightPhase, String>)
        ensures
            old(self).phase() == FlightPhase::TaxiToGate ==> r == Ok::<FlightPhase, String>(
                FlightPhase::Shutdown,
            ) && final(self).phase() == FlightPhase::Shutdown,
            old(self).phase() != FlightPhase::TaxiToGate ==> r.is_err() && r.unwrap_err()@
                == shutdown_rejection(old(self).phase()) && final(self).phase() == old(
                self,
            ).phase(),
    {
        match self.current {
            FlightPhase::TaxiToGate => {
                self.current = FlightPhase::Shutdown;
                Ok(FlightPhase::Shutdown)
            },
            other => {
                let msg = String::from_str("nothing to shut down -- currently ");
                let msg = msg.concat(other.name());
                Err(msg.concat(", not taxied to gate"))
            },
        }
    }
}

impl Default for PhaseTracker {
    fn default() -> (r: PhaseTracker)
        ensures
            r.phase() == FlightPhase::Ground,
    {
        PhaseTracker::new()
    }
}

/// An automatic check moves at most one step, and only along the
/// documented phase graph: it never enters GoAround or Shutdown, which
/// need explicit commands.
pub proof fn law_tick_follows_phase_graph(p: FlightPhase, atc: Controller, f: PhaseInputs)
    ensures
        next_phase(p, atc, f) is Some ==> next_phase(p, atc, f) == automatic_successor(p),
        next_phase(p, atc, f) != Some(FlightPhase::GoAround),
        next_phase(p, atc, f) != Some(FlightPhase::Shutdown),
{
}

/// Shutdown is terminal: no automatic check and no command leaves it.
pub proof fn law_shutdown_is_terminal(atc: Controller, f: PhaseInputs)
    ensures
        next_phase(FlightPhase::Shutdown, atc, f).is_none(),
{
}

/// Leaving the ground needs a taxi clearance, and starting the takeoff
/// roll needs both the takeoff clearance and takeoff thrust.
pub proof fn law_departure_needs_clearances(p: FlightPhase, atc: Controller, f: PhaseInputs)
    ensures
        p == FlightPhase::Ground && next_phase(p, atc, f) is Some ==> granted(
            atc,
            ClearanceType::Taxi,
        ),
        p == FlightPhase::TakeoffHold && next_phase(p, atc, f) is Some ==> granted(
            atc,
            ClearanceType::Takeoff,
        ) && f.takeoff_thrust,
        p == FlightPhase::Approach && next_phase(p, atc, f) is Some ==> granted(
            atc,
            ClearanceType::Landing,
        ) && f.within_landing_margin,
{
}

/// Each automatic transition has its own trigger and nothing else moves
/// the phase: the aircraft taxies once cleared to taxi; lines up once
/// cleared for takeoff; starts the takeoff roll once cleared for takeoff
/// and at takeoff thrust; climbs once above the ground margin; levels off
/// in cruise once at cruise altitude; descends once cleared to descend;
/// begins the approach once cleared for the approach; lands once cleared
/// to land and within the landing margin; rolls out to taxi in once
/// within the ground margin; and climbs out of a go-around once it has
/// climbed the go-around height. Once taxiing in, and after shutdown, no
/// check moves it.
pub proof fn law_each_phase_leaves_on_its_own_trigger(atc: Controller, f: PhaseInputs)
    ensures
        next_phase(FlightPhase::Ground, atc, f) == (if granted(atc, ClearanceType::Taxi) {
            Some(FlightPhase::Taxi)
        } else {
            None
        }),
        next_phase(FlightPhase::Taxi, atc, f) == (if granted(atc, ClearanceType::Takeoff) {
            Some(FlightPhase::TakeoffHold)
        } else {
            None
        }),
        next_phase(FlightPhase::TakeoffHold, atc, f) == (if granted(atc, ClearanceType::Takeoff)
            && f.takeoff_thrust {
            Some(FlightPhase::Takeoff)
        } else {
            None
        }),
        next_phase(FlightPhase::Takeoff, atc, f) == (if f.above_ground_margin {
            Some(FlightPhase::Climb)
        } else {
            None
        }),
        next_phase(FlightPhase::Climb, atc, f) == (if f.at_cruise_altitude {
            Some(FlightPhase::Cruise)
        } else {
            None
        }),
        next_phase(FlightPhase::Cruise, atc, f) == (if granted(atc, ClearanceType::Descend) {
            Some(FlightPhase::Descent)
        } else {
            None
        }),
        next_phase(FlightPhase::Descent, atc, f) == (if granted(atc, ClearanceType::Approach) {
            Some(FlightPhase::Approach)
        } else {
            None
        }),
        next_phase(FlightPhase::Approach, atc, f) == (if granted(atc, ClearanceType::Landing)
            && f.within_landing_margin {
            Some(FlightPhase::Landing)
        } else {
            None
        }),
        next_phase(FlightPhase::Landing, atc, f) == (if f.within_ground_margin {
            Some(FlightPhase::TaxiToGate)
        } else {
            None
        }),
        next_phase(FlightPhase::GoAround, atc, f) == (if f.go_around_gain_reached {
            Some(FlightPhase::Climb)
        } else {
            None
        }),
        next_phase(FlightPhase::TaxiToGate, atc, f) == None::<FlightPhase>,
        next_phase(FlightPhase::Shutdown, atc, f) == None::<FlightPhase>,
{
}

/// Leaving a phase that waits on ATC needs that phase's own clearance: a
/// later clearance (say, for the approach) never stands in for an earlier
/// one (to descend), nor the other way round. The phases left on a
/// measured condition do not look at ATC at all: any two controllers
/// `atc` and `other` give the same answer there.
pub proof fn law_clearances_are_not_interchangeable(
    p: FlightPhase,
    atc: Controller,
    other: Controller,
    f: PhaseInputs,
)
    ensures
        p == FlightPhase::Ground && next_phase(p, atc, f) is Some ==> granted(atc, ClearanceType::Taxi),
        (p == FlightPhase::Taxi || p == FlightPhase::TakeoffHold) && next_phase(p, atc, f) is Some
            ==> granted(atc, ClearanceType::Takeoff),
        p == FlightPhase::Cruise && next_phase(p, atc, f) is Some ==> granted(
            atc,
            ClearanceType::Descend,
        ),
        p == FlightPhase::Descent && next_phase(p, atc, f) is Some ==> granted(
            atc,
            ClearanceType::Approach,
        ),
        p == FlightPhase::Approach && next_phase(p, atc, f) is Some ==> granted(
            atc,
            ClearanceType::Landing,
        ),
        (p == FlightPhase::Takeoff || p == FlightPhase::Climb || p == FlightPhase::Landing || p
            == FlightPhase::GoAround) ==> next_phase(p, atc, f) == next_phase(p, other, f),
{
}

} // verus!
