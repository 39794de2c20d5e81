//! The simulation's discrete state and the decisions made on each tick:
//! the clock, the event bus, the fixed-timestep accumulator, the active
//! checklist, the FO's task queue, ATC clearances and the flight phase.
//!
//! The aircraft's continuous state (attitude, altitude, engine spool)
//! lives with the caller, which integrates it each tick and hands in the
//! measured phase conditions and the FO's pace.
use vstd::prelude::*;
use crate::atc::constraints::ClearanceType;
use crate::atc::controller::{ClearanceState, Controller};
use crate::checklist::{Checklist, ChecklistItem, first_pending, marked_complete};
use crate::checklist::landing::{landing_checklist, landing_item_names};
use crate::crew::queue::{TaskQueue, pace_total, worked};
use crate::crew::task::{Task, TaskSource};
use crate::sim::phase::{FlightPhase, PhaseInputs, PhaseTracker, next_phase, go_around_rejection, shutdown_rejection};
use crate::sim_core::errors::SimError;
use crate::sim_core::event::Event;
use crate::sim_core::event_bus::EventBus;
use crate::sim_core::ids::{IdGenerator, TaskId, next_step};
use crate::sim_core::tick::FixedTimestep;
use crate::sim_core::time::{Duration, MAX_NANOS, SimClock, TICK_NANOS, tick_duration};

verus! {

/// How long a fully experienced FO takes to run one checklist item.
pub const CHECKLIST_TASK_SECONDS: u64 = 3;

/// How many times `SimulationStarted` occurs in `events`.
pub open spec fn start_count(events: Seq<Event>) -> nat
    decreases events.len(),
{
    if events.len() == 0 {
        0
    } else {
        start_count(events.drop_last()) + if events.last() == Event::SimulationStarted {
            1nat
        } else {
            0nat
        }
    }
}

proof fn lemma_start_count_push(events: Seq<Event>, e: Event)
    ensures
        start_count(events.push(e)) == start_count(events) + if e == Event::SimulationStarted {
            1nat
        } else {
            0nat
        },
{
    assert(events.push(e).drop_last() =~= events);
}

/// Some task in `lineup` is working checklist item `index`.
pub open spec fn item_queued(lineup: Seq<Task>, index: int) -> bool {
    exists|k: int| 0 <= k < lineup.len() && #[trigger] lineup[k].source == TaskSource::ChecklistItem(
        index as usize,
    ) && index >= 0
}

/// No checklist item is with the FO twice.
pub open spec fn items_queued_once(lineup: Seq<Task>) -> bool {
    forall|a: int, b: int|
        0 <= a < b < lineup.len() && (#[trigger] lineup[a].source) is ChecklistItem
            ==> lineup[a].source != #[trigger] lineup[b].source
}

/// Item `i` can be handed to the FO: not yet done and not already queued.
pub open spec fn delegatable(items: Seq<ChecklistItem>, lineup: Seq<Task>, i: int) -> bool {
    0 <= i < items.len() && !items[i].complete && !item_queued(lineup, i)
}

/// The first item that can be handed to the FO, if any.
pub open spec fn first_delegatable(items: Seq<ChecklistItem>, lineup: Seq<Task>) -> Option<int> {
    if exists|i: int| #[trigger] delegatable(items, lineup, i) {
        Some(
            choose|i: int|
                #[trigger] delegatable(items, lineup, i) && forall|j: int|
                    0 <= j < i ==> !delegatable(items, lineup, j),
        )
    } else {
        None
    }
}

/// When some item is delegatable, `first_delegatable` names the least
/// such item.
pub proof fn lemma_first_delegatable_is_least(items: Seq<ChecklistItem>, lineup: Seq<Task>, i: int)
    requires
        delegatable(items, lineup, i),
    ensures
        first_delegatable(items, lineup) is Some,
        delegatable(items, lineup, first_delegatable(items, lineup).unwrap()),
        forall|j: int|
            0 <= j < first_delegatable(items, lineup).unwrap() ==> !delegatable(items, lineup, j),
    decreases i,
{
    if exists|j: int| 0 <= j < i && #[trigger] delegatable(items, lineup, j) {
        let j = choose|j: int| 0 <= j < i && #[trigger] delegatable(items, lineup, j);
        lemma_first_delegatable_is_least(items, lineup, j);
    } else {
        assert(delegatable(items, lineup, i) && forall|j: int|
            0 <= j < i ==> !delegatable(items, lineup, j));
    }
}

/// `after` is `before` with ATC having granted `c`; nothing else changed.
pub open spec fn granted_request(before: SimCore, after: SimCore, c: ClearanceType) -> bool {
    &&& after.wf()
    &&& after.spec_atc().spec_state(c) == ClearanceState::Granted
    &&& forall|d: ClearanceType|
        d != c ==> #[trigger] after.spec_atc().spec_state(d) == before.spec_atc().spec_state(d)
    &&& after.spec_checklist() == before.spec_checklist()
    &&& after.spec_queue() == before.spec_queue()
    &&& after.spec_phase() == before.spec_phase()
    &&& after.spec_clock() == before.spec_clock()
    &&& after.spec_published() == before.spec_published()
    &&& after.spec_task_ids() == before.spec_task_ids()
}

/// `after` is `before` with the first pending checklist item checked off,
/// if there is one; nothing else changed.
pub open spec fn checked_next(before: SimCore, after: SimCore) -> bool {
    &&& after.wf()
    &&& after.spec_checklist().name == before.spec_checklist().name
    &&& match first_pending(before.spec_checklist().items@) {
        Some(i) => marked_complete(
            before.spec_checklist().items@,
            after.spec_checklist().items@,
            i,
        ),
        None => after.spec_checklist().items@ == before.spec_checklist().items@,
    }
    &&& after.spec_queue() == before.spec_queue()
    &&& after.spec_phase() == before.spec_phase()
    &&& after.spec_atc() == before.spec_atc()
    &&& after.spec_clock() == before.spec_clock()
    &&& after.spec_published() == before.spec_published()
    &&& after.spec_task_ids() == before.spec_task_ids()
}

/// `after` is `before` with the first delegatable checklist item, if any,
/// queued behind the FO's other tasks; nothing else changed.
pub open spec fn delegated_next(before: SimCore, after: SimCore) -> bool {
    &&& after.wf()
    &&& after.spec_checklist() == before.spec_checklist()
    &&& after.spec_phase() == before.spec_phase()
    &&& after.spec_atc() == before.spec_atc()
    &&& after.spec_clock() == before.spec_clock()
    &&& after.spec_published() == before.spec_published()
    &&& match first_delegatable(before.spec_checklist().items@, before.spec_queue().lineup()) {
        Some(i) => {
            let item = before.spec_checklist().items@[i];
            let lineup = after.spec_queue().lineup();
            &&& lineup.len() == before.spec_queue().lineup().len() + 1
            &&& lineup.drop_last() == before.spec_queue().lineup()
            &&& lineup.last().source == TaskSource::ChecklistItem(i as usize)
            &&& lineup.last().description@ == item.name@
            &&& lineup.last().base_duration.nanos == CHECKLIST_TASK_SECONDS * 1_000_000_000
            &&& next_step(before.spec_task_ids(), after.spec_task_ids(), lineup.last().id.0)
        },
        None => after.spec_queue() == before.spec_queue() && after.spec_task_ids()
            == before.spec_task_ids(),
    }
}

pub struct SimCore {
    clock: SimClock,
    /// Every event this core has handed to the bus, oldest first.
    published: Ghost<Seq<Event>>,
    event_bus: EventBus,
    timestep: FixedTimestep,
    started: bool,
    checklist: Checklist,
    fo_queue: TaskQueue,
    atc: Controller,
    phase: PhaseTracker,
    task_ids: IdGenerator,
}

impl SimCore {
    pub closed spec fn spec_clock(self) -> SimClock {
        self.clock
    }

    pub closed spec fn spec_started(self) -> bool {
        self.started
    }

    pub closed spec fn spec_checklist(self) -> Checklist {
        self.checklist
    }

    pub closed spec fn spec_queue(self) -> TaskQueue {
        self.fo_queue
    }

    pub closed spec fn spec_atc(self) -> Controller {
        self.atc
    }

    pub closed spec fn spec_phase(self) -> FlightPhase {
        self.phase.phase()
    }

    pub closed spec fn spec_timestep(self) -> FixedTimestep {
        self.timestep
    }

    pub closed spec fn spec_bus(self) -> EventBus {
        self.event_bus
    }

    /// The generator that numbers the FO's tasks.
    pub closed spec fn spec_task_ids(self) -> IdGenerator {
        self.task_ids
    }

    /// Every event this core has published, oldest first.
    pub closed spec fn spec_published(self) -> Seq<Event> {
        self.published@
    }

    /// The FO's queue is consistent and holds each checklist item at most
    /// once.
    pub open spec fn wf(self) -> bool {
        &&& self.spec_queue().wf()
        &&& items_queued_once(self.spec_queue().lineup())
        &&& start_count(self.spec_published()) == if self.spec_started() {
            1nat
        } else {
            0nat
        }
    }

    /// A fresh flight: parked on the ground at tick zero, the landing
    /// checklist untouched, no clearances, an idle FO.
    pub fn new() -> (r: SimCore)
        ensures
            r.wf(),
            r.spec_clock().spec_now().tick_value() == 0,
            !r.spec_started(),
            r.spec_phase() == FlightPhase::Ground,
            r.spec_queue().lineup().len() == 0,
            r.spec_timestep().pending() == 0,
            r.spec_published().len() == 0,
            r.spec_checklist().name@ == "Landing Checklist"@,
            r.spec_checklist().items@.len() == 5,
            forall|i: int|
                0 <= i < 5 ==> #[trigger] r.spec_checklist().items@[i].name@
                    == landing_item_names()[i] && !r.spec_checklist().items@[i].complete,
            forall|c: ClearanceType| #[trigger] r.spec_atc().spec_state(c)
                == ClearanceState::NotRequested,
    {
        let r = SimCore {
            clock: SimClock::new(),
            published: Ghost(Seq::empty()),
            event_bus: EventBus::new(),
            timestep: FixedTimestep::new(),
            started: false,
            checklist: landing_checklist(),
            fo_queue: TaskQueue::new(),
            atc: Controller::new(),
            phase: PhaseTracker::new(),
            task_ids: IdGenerator::new(),
        };
        assert(r.spec_queue().lineup() =~= Seq::<Task>::empty());
        r
    }

    pub fn clock(&self) -> (r: &SimClock)
        ensures
            *r == self.spec_clock(),
    {
        &self.clock
    }

    /// The event bus, to subscribe to it. Nothing else changes.
    pub fn event_bus(&mut self) -> (r: &mut EventBus)
        ensures
            *r == old(self).spec_bus(),
            final(self).spec_bus() == *final(r),
            final(self).spec_clock() == old(self).spec_clock(),
            final(self).spec_published() == old(self).spec_published(),
            final(self).spec_started() == old(self).spec_started(),
            final(self).spec_checklist() == old(self).spec_checklist(),
            final(self).spec_queue() == old(self).spec_queue(),
            final(self).spec_atc() == old(self).spec_atc(),
            final(self).spec_phase() == old(self).spec_phase(),
            final(self).spec_timestep() == old(self).spec_timestep(),
            final(self).spec_task_ids() == old(self).spec_task_ids(),
            final(self).wf() == old(self).wf(),
    {
        &mut self.event_bus
    }

    pub fn checklist(&self) -> (r: &Checklist)
        ensures
            *r == self.spec_checklist(),
    {
        &self.checklist
    }

    pub fn fo_queue(&self) -> (r: &TaskQueue)
        ensures
            *r == self.spec_queue(),
    {
        &self.fo_queue
    }

    pub fn atc(&self) -> (r: &Controller)
        ensures
            *r == self.spec_atc(),
    {
        &self.atc
    }

    pub fn phase(&self) -> (r: FlightPhase)
        ensures
            r == self.spec_phase(),
    {
        self.phase.current()
    }

    /// Ask ATC for a clearance; it is granted at once.
    pub fn request_clearance(&mut self, clearance: ClearanceType) -> (r: ClearanceState)
        requires
            old(self).wf(),
        ensures
            final(self).wf(),
            r == ClearanceState::Granted,
            final(self).spec_atc().spec_state(clearance) == ClearanceState::Granted,
            forall|d: ClearanceType|
                d != clearance ==> #[trigger] final(self).spec_atc().spec_state(d) == old(
                    self,
                ).spec_atc().spec_state(d),
            final(self).spec_checklist() == old(self).spec_checklist(),
            final(self).spec_queue() == old(self).spec_queue(),
            final(self).spec_phase() == old(self).spec_phase(),
            final(self).spec_clock() == old(self).spec_clock(),
            final(self).spec_published() == old(self).spec_published(),
            granted_request(*old(self), *final(self), clearance),
    {
        self.atc.request(clearance)
    }

    /// The player checks off the next pending checklist item themselves,
    /// taking effect at once. Returns its name, or `None` if the checklist
    /// is already complete.
    pub fn check_next_checklist_item(&mut self) -> (r: Option<String>)
        requires
            old(self).wf(),
        ensures
            final(self).wf(),
            checked_next(*old(self), *final(self)),
            final(self).spec_checklist().name == old(self).spec_checklist().name,
            match first_pending(old(self).spec_checklist().items@) {
                Some(i) => r.is_some() && r.unwrap()@ == old(self).spec_checklist().items@[i].name@
                    && marked_complete(
                    old(self).spec_checklist().items@,
                    final(self).spec_checklist().items@,
                    i,
                ),
                None => r.is_none() && final(self).spec_checklist().items@ == old(
                    self,
                ).spec_checklist().items@,
            },
            final(self).spec_queue() == old(self).spec_queue(),
            final(self).spec_phase() == old(self).spec_phase(),
            final(self).spec_atc() == old(self).spec_atc(),
            final(self).spec_clock() == old(self).spec_clock(),
            final(self).spec_published() == old(self).spec_published(),
    {
        self.checklist.check_next()
    }

    /// Whether some task in the FO's queue works checklist item `index`.
    fn item_is_queued(&self, index: usize) -> (r: bool)
        requires
            self.fo_queue.wf(),
        ensures
            r == item_queued(self.fo_queue.lineup(), index as int),
    {
        let ghost lineup = self.fo_queue.lineup();
        match self.fo_queue.executing() {
            None => {
                assert(lineup =~= Seq::<Task>::empty());
                false
            },
            Some(e) => {
                assert(lineup[0] == e.task);
                if e.task.source == TaskSource::ChecklistItem(index) {
                    assert(lineup[0].source == TaskSource::ChecklistItem(index));
                    assert(item_queued(lineup, index as int));
                    return true;
                }
                let pending = self.fo_queue.pending();
                let n = pending.len();
                let mut k: usize = 0;
                while k < n
                    invariant
                        n == pending@.len(),
                        k <= n,
                        lineup == seq![e.task] + pending@,
                        lineup == self.fo_queue.lineup(),
                        e.task.source != TaskSource::ChecklistItem(index),
                        forall|j: int| 0 <= j < k ==> #[trigger] pending@[j].source
                            != TaskSource::ChecklistItem(index),
                    decreases n - k,
                {
                    if pending[k].source == TaskSource::ChecklistItem(index) {
                        assert(lineup[k + 1] == pending@[k as int]);
                        assert(lineup[k + 1].source == TaskSource::ChecklistItem(index));
                        assert(item_queued(lineup, index as int));
                        return true;
                    }
                    k = k + 1;
                }
                assert forall|j: int| 0 <= j < lineup.len() implies #[trigger] lineup[j].source
                    != TaskSource::ChecklistItem(index) by {
                    if j > 0 {
                        assert(lineup[j] == pending@[j - 1]);
                    }
                }
                false
            },
        }
    }

    /// Hand the first checklist item that is neither complete nor already
    /// with the FO to the FO's queue. Returns its name, or `None` if no
    /// item qualifies.
    pub fn delegate_next_checklist_item<P: Fn(Duration) -> Duration>(&mut self, pace: &P) -> (r:
        Option<String>)
        requires
            old(self).wf(),
            pace_total(*pace),
        ensures
            final(self).wf(),
            delegated_next(*old(self), *final(self)),
            final(self).spec_checklist() == old(self).spec_checklist(),
            final(self).spec_phase() == old(self).spec_phase(),
            final(self).spec_atc() == old(self).spec_atc(),
            final(self).spec_clock() == old(self).spec_clock(),
            final(self).spec_published() == old(self).spec_published(),
            match first_delegatable(
                old(self).spec_checklist().items@,
                old(self).spec_queue().lineup(),
            ) {
                Some(i) => {
                    let item = old(self).spec_checklist().items@[i];
                    let lineup = final(self).spec_queue().lineup();
                    &&& r.is_some()
                    &&& r.unwrap()@ == item.name@
                    &&& lineup.len() == old(self).spec_queue().lineup().len() + 1
                    &&& lineup.drop_last() == old(self).spec_queue().lineup()
                    &&& lineup.last().source == TaskSource::ChecklistItem(i as usize)
                    &&& lineup.last().description@ == item.name@
                    &&& lineup.last().base_duration.nanos == CHECKLIST_TASK_SECONDS
                        * 1_000_000_000
                    &&& lineup.last().id == TaskId(old(self).spec_task_ids().upcoming())
                    &&& next_step(old(self).spec_task_ids(), final(self).spec_task_ids(), lineup.last().id.0)
                },
                None => r.is_none() && final(self).spec_queue() == old(self).spec_queue()
                    && final(self).spec_task_ids() == old(self).spec_task_ids(),
            },
    {
        let n = self.checklist.items.len();
        let ghost items = self.checklist.items@;
        let ghost lineup = self.fo_queue.lineup();
        let mut i: usize = 0;
        while i < n
            invariant
                n == items.len(),
                i <= n,
                items == self.checklist.items@,
                lineup == self.fo_queue.lineup(),
                self.fo_queue.wf(),
                items_queued_once(lineup),
                pace_total(*pace),
                self.checklist == old(self).checklist,
                self.fo_queue == old(self).fo_queue,
                self.atc == old(self).atc,
                self.clock == old(self).clock,
                self.phase == old(self).phase,
                self.published == old(self).published,
                self.started == old(self).started,
                self.task_ids == old(self).task_ids,
                old(self).wf(),
                forall|j: int| 0 <= j < i ==> !delegatable(items, lineup, j),
            decreases n - i,
        {
            if !self.checklist.items[i].complete && !self.item_is_queued(i) {
                assert(delegatable(items, lineup, i as int));
                let ghost chosen = choose|c: int|
                    #[trigger] delegatable(items, lineup, c) && forall|j: int|
                        0 <= j < c ==> !delegatable(items, lineup, j);
                assert(chosen == i) by {
                    if chosen < i {
                        assert(!delegatable(items, lineup, chosen));
                    } else if chosen > i {
                        assert(!delegatable(items, lineup, i as int));
                    }
                }
                let name = self.checklist.items[i].name.clone();
                let id = TaskId(self.task_ids.next());
                let task = Task::new(
                    id,
                    self.checklist.items[i].name.clone(),
                    Duration::from_secs(CHECKLIST_TASK_SECONDS),
                    TaskSource::ChecklistItem(i),
                );
                self.fo_queue.delegate(task, pace);
                proof {
                    let after = self.fo_queue.lineup();
                    assert(after == lineup.push(task));
                    assert(after.drop_last() =~= lineup);
                    assert forall|a: int, b: int|
                        0 <= a < b < after.len() && (#[trigger] after[a].source) is ChecklistItem
                            implies after[a].source != #[trigger] after[b].source by {
                        if b == lineup.len() {
                            assert(after[b] == task);
                            assert(after[a] == lineup[a]);
                            if after[a].source == after[b].source {
                                assert(lineup[a].source == TaskSource::ChecklistItem(i));
                                assert(item_queued(lineup, i as int));
                            }
                        } else {
                            assert(after[a] == lineup[a]);
                            assert(after[b] == lineup[b]);
                        }
                    }
                }
                return Some(name);
            }
            i = i + 1;
        }
        None
    }

    /// Explicit player command: go around from Approach or Landing.
    pub fn go_around(&mut self) -> (r: Result<FlightPhase, SimError>)
        requires
            old(self).wf(),
        ensures
            final(self).wf(),
            (old(self).spec_phase() == FlightPhase::Approach || old(self).spec_phase()
                == FlightPhase::Landing) ==> r == Ok::<FlightPhase, SimError>(FlightPhase::GoAround)
                && final(self).spec_phase() == FlightPhase::GoAround,
            !(old(self).spec_phase() == FlightPhase::Approach || old(self).spec_phase()
                == FlightPhase::Landing) ==> final(self).spec_phase() == old(self).spec_phase()
                && match r {
                Err(SimError::PhaseTransitionRejected(msg)) => msg@ == go_around_rejection(
                    old(self).spec_phase(),
                ),
                _ => false,
            },
            final(self).spec_checklist() == old(self).spec_checklist(),
            final(self).spec_queue() == old(self).spec_queue(),
            final(self).spec_atc() == old(self).spec_atc(),
            final(self).spec_clock() == old(self).spec_clock(),
            final(self).spec_published() == old(self).spec_published(),
            final(self).spec_task_ids() == old(self).spec_task_ids(),
    {
        match self.phase.go_around() {
            Ok(p) => Ok(p),
            Err(msg) => Err(SimError::PhaseTransitionRejected(msg)),
        }
    }

    /// Explicit player command: shut the aircraft down once it has taxied in.
    pub fn shutdown(&mut self) -> (r: Result<FlightPhase, SimError>)
        requires
            old(self).wf(),
        ensures
            final(self).wf(),
            old(self).spec_phase() == FlightPhase::TaxiToGate ==> r == Ok::<FlightPhase, SimError>(
                FlightPhase::Shutdown,
            ) && final(self).spec_phase() == FlightPhase::Shutdown,
            old(self).spec_phase() != FlightPhase::TaxiToGate ==> final(self).spec_phase() == old(
                self,
            ).spec_phase() && match r {
                Err(SimError::PhaseTransitionRejected(msg)) => msg@ == shutdown_rejection(
                    old(self).spec_phase(),
                ),
                _ => false,
            },
            final(self).spec_checklist() == old(self).spec_checklist(),
            final(self).spec_queue() == old(self).spec_queue(),
            final(self).spec_atc() == old(self).spec_atc(),
            final(self).spec_clock() == old(self).spec_clock(),
            final(self).spec_published() == old(self).spec_published(),
            final(self).spec_task_ids() == old(self).spec_task_ids(),
    {
        match self.phase.shutdown() {
            Ok(p) => Ok(p),
            Err(msg) => Err(SimError::PhaseTransitionRejected(msg)),
        }
    }

    /// Record elapsed wall-clock time toward the next tick.
    pub fn add_elapsed(&mut self, elapsed: Duration)
        requires
            old(self).wf(),
            old(self).spec_timestep().pending() + elapsed.nanos <= MAX_NANOS,
        ensures
            final(self).wf(),
            final(self).spec_timestep().pending() == old(self).spec_timestep().pending()
                + elapsed.nanos,
            final(self).spec_clock() == old(self).spec_clock(),
            final(self).spec_published() == old(self).spec_published(),
            final(self).spec_checklist() == old(self).spec_checklist(),
            final(self).spec_queue() == old(self).spec_queue(),
            final(self).spec_phase() == old(self).spec_phase(),
            final(self).spec_task_ids() == old(self).spec_task_ids(),
    {
        self.timestep.advance(elapsed);
    }

    /// Take one owed tick off the accumulator, if there is one. The caller
    /// runs a tick for each `true`.
    pub fn take_tick(&mut self) -> (r: bool)
        requires
            old(self).wf(),
        ensures
            final(self).wf(),
            r == (old(self).spec_timestep().pending() >= TICK_NANOS),
            r ==> final(self).spec_timestep().pending() == old(self).spec_timestep().pending()
                - TICK_NANOS,
            !r ==> final(self).spec_timestep().pending() == old(self).spec_timestep().pending(),
            final(self).spec_clock() == old(self).spec_clock(),
            final(self).spec_published() == old(self).spec_published(),
            final(self).spec_checklist() == old(self).spec_checklist(),
            final(self).spec_queue() == old(self).spec_queue(),
            final(self).spec_phase() == old(self).spec_phase(),
            final(self).spec_task_ids() == old(self).spec_task_ids(),
    {
        self.timestep.step()
    }

    /// Time accumulated toward the next tick.
    pub fn accumulated(&self) -> (r: Duration)
        ensures
            r.nanos == self.spec_timestep().pending(),
    {
        self.timestep.accumulator()
    }

    /// One tick of the discrete simulation: announce the start on the
    /// first tick, advance the clock, let the FO work for one tick (a
    /// finished checklist task checks its item off), run the automatic
    /// phase check on this tick's measured `inputs`, then publish `Tick`.
    /// Returns the phase entered this tick, if any.
    pub fn tick<P: Fn(Duration) -> Duration>(&mut self, inputs: &PhaseInputs, pace: &P) -> (r:
        Option<FlightPhase>)
        requires
            old(self).wf(),
            pace_total(*pace),
            old(self).spec_clock().spec_now().tick_value() < u64::MAX,
        ensures
            final(self).wf(),
            final(self).spec_started(),
            final(self).spec_clock().spec_now().tick_value() == old(
                self,
            ).spec_clock().spec_now().tick_value() + 1,
            final(self).spec_published() == old(self).spec_published() + (if old(
                self,
            ).spec_started() {
                Seq::<Event>::empty()
            } else {
                seq![Event::SimulationStarted]
            }) + seq![Event::Tick { at: final(self).spec_clock().spec_now() }],
            final(self).spec_bus() == old(self).spec_bus(),
            !old(self).spec_started() ==> final(self).spec_bus().all_notified(
                Event::SimulationStarted,
            ),
            final(self).spec_bus().all_notified(Event::Tick { at: final(self).spec_clock().spec_now() }),
            final(self).spec_timestep() == old(self).spec_timestep(),
            r == next_phase(old(self).spec_phase(), old(self).spec_atc(), *inputs),
            final(self).spec_phase() == match r {
                Some(p) => p,
                None => old(self).spec_phase(),
            },
            final(self).spec_atc() == old(self).spec_atc(),
            final(self).spec_checklist().name == old(self).spec_checklist().name,
            final(self).spec_task_ids() == old(self).spec_task_ids(),
            worked(old(self).spec_queue(), final(self).spec_queue(), TICK_NANOS as nat, *pace),
            match old(self).spec_queue().spec_executing() {
                Some(e) => if e.remaining.nanos <= TICK_NANOS {
                    match e.task.source {
                        TaskSource::ChecklistItem(i) => if i < old(
                            self,
                        ).spec_checklist().items@.len() {
                            marked_complete(
                                old(self).spec_checklist().items@,
                                final(self).spec_checklist().items@,
                                i as int,
                            )
                        } else {
                            final(self).spec_checklist().items@ == old(
                                self,
                            ).spec_checklist().items@
                        },
                        TaskSource::Adhoc => final(self).spec_checklist().items@ == old(
                            self,
                        ).spec_checklist().items@,
                    }
                } else {
                    final(self).spec_checklist().items@ == old(self).spec_checklist().items@
                },
                None => final(self).spec_checklist().items@ == old(self).spec_checklist().items@,
            },
    {
        let ghost before = self.published@;
        if !self.started {
            self.event_bus.publish(Event::SimulationStarted);
            proof {
                lemma_start_count_push(self.published@, Event::SimulationStarted);
            }
            self.published = Ghost(self.published@.push(Event::SimulationStarted));
            self.started = true;
        }
        self.clock.tick();
        let ghost lineup = self.fo_queue.lineup();
        let completed = self.fo_queue.integrate(tick_duration(), pace);
        proof {
            let after = self.fo_queue.lineup();
            if after.len() != lineup.len() {
                assert(after == lineup.drop_first());
                assert forall|a: int, b: int|
                    0 <= a < b < after.len() && (#[trigger] after[a].source) is ChecklistItem
                        implies after[a].source != #[trigger] after[b].source by {
                    assert(after[a] == lineup[a + 1]);
                    assert(after[b] == lineup[b + 1]);
                }
            } else {
                match old(self).spec_queue().spec_executing() {
                    Some(e) => {
                        assert(after =~= lineup);
                    },
                    None => {},
                }
            }
        }
        if let Some(task) = completed {
            if let TaskSource::ChecklistItem(index) = task.source {
                self.checklist.mark_complete(index);
            }
        }
        let entered = self.phase.tick(&self.atc, inputs);
        let at = self.clock.now();
        self.event_bus.publish(Event::Tick { at });
        proof {
            lemma_start_count_push(self.published@, Event::Tick { at });
        }
        self.published = Ghost(self.published@.push(Event::Tick { at }));
        assert(self.published@ =~= before + (if old(self).started {
            Seq::<Event>::empty()
        } else {
            seq![Event::SimulationStarted]
        }) + seq![Event::Tick { at }]);
        entered
    }

    /// Announce that the simulation loop is exiting.
    pub fn stop(&mut self)
        requires
            old(self).wf(),
        ensures
            final(self).wf(),
            final(self).spec_published() == old(self).spec_published().push(
                Event::SimulationStopped { at: old(self).spec_clock().spec_now() },
            ),
            final(self).spec_bus() == old(self).spec_bus(),
            final(self).spec_bus().all_notified(
                Event::SimulationStopped { at: old(self).spec_clock().spec_now() },
            ),
            final(self).spec_started() == old(self).spec_started(),
            final(self).spec_clock() == old(self).spec_clock(),
            final(self).spec_checklist() == old(self).spec_checklist(),
            final(self).spec_queue() == old(self).spec_queue(),
            final(self).spec_atc() == old(self).spec_atc(),
            final(self).spec_phase() == old(self).spec_phase(),
            final(self).spec_timestep() == old(self).spec_timestep(),
            final(self).spec_task_ids() == old(self).spec_task_ids(),
    {
        let at = self.clock.now();
        self.event_bus.publish(Event::SimulationStopped { at });
        proof {
            lemma_start_count_push(self.published@, Event::SimulationStopped { at });
        }
        self.published = Ghost(self.published@.push(Event::SimulationStopped { at }));
    }
}

/// `SimulationStarted` is published once, on the first tick, and never
/// again; before the first tick it has not been published at all.
pub proof fn law_started_is_published_once(sim: SimCore)
    requires
        sim.wf(),
    ensures
        sim.spec_started() ==> start_count(sim.spec_published()) == 1,
        !sim.spec_started() ==> start_count(sim.spec_published()) == 0,
{
}

/// Completing a checklist item through the FO never completes any other
/// item and never un-completes one.
pub proof fn law_fo_completion_touches_one_item(
    before: Seq<ChecklistItem>,
    after: Seq<ChecklistItem>,
    i: int,
)
    requires
        marked_complete(before, after, i),
    ensures
        forall|j: int| 0 <= j < before.len() && j != i ==> #[trigger] after[j] == before[j],
        after[i].complete,
{
}

} // verus!
