//! When a poll cycle may start: never while another one runs.
//!
//! The timer and the manual command both ask here. A request that comes
//! while a cycle runs is held, and one cycle is started for all that were
//! held once the running one is over.

use vstd::prelude::*;

verus! {

/// The seconds between two cycles that the timer asks for, unless
/// configured otherwise: thirty hours.
pub const DEFAULT_POLL_INTERVAL_SECONDS: u64 = 108_000;

/// Who asks for a cycle.
#[derive(Debug, Clone, Copy, PartialEq, Eq, Structural)]
pub enum Trigger {
    /// The timer.
    Interval,
    /// The command to update now.
    Manual,
}

/// What a scheduler is told.
#[derive(Debug, Clone, Copy, PartialEq, Eq, Structural)]
pub enum SchedulerEvent {
    /// A cycle is asked for.
    Triggered(Trigger),
    /// The running cycle is over.
    Finished,
}

/// What a `Scheduler` is, as mathematics.
pub struct SchedulerView {
    /// Whether a cycle runs.
    pub running: bool,
    /// Whether a cycle was asked for while one ran.
    pub held: bool,
}

impl SchedulerView {
    /// Nothing runs and nothing is held.
    pub open spec fn idle() -> SchedulerView {
        SchedulerView { running: false, held: false }
    }

    /// Nothing is held unless a cycle runs.
    pub open spec fn well_formed(self) -> bool {
        self.held ==> self.running
    }

    /// The scheduler after `event`.
    pub open spec fn after(self, event: SchedulerEvent) -> SchedulerView {
        match event {
            SchedulerEvent::Triggered(_) => if self.running {
                SchedulerView { running: true, held: true }
            } else {
                SchedulerView { running: true, held: false }
            },
            SchedulerEvent::Finished => if self.held {
                SchedulerView { running: true, held: false }
            } else {
                SchedulerView { running: false, held: false }
            },
        }
    }

    /// Whether `event` starts a cycle: a request does while nothing runs, and
    /// the end of a cycle does while a request is held.
    pub open spec fn starts(self, event: SchedulerEvent) -> bool {
        match event {
            SchedulerEvent::Triggered(_) => !self.running,
            SchedulerEvent::Finished => self.held,
        }
    }

    /// Whether `event` ends a cycle: the end of a cycle does while one runs.
    pub open spec fn ends(self, event: SchedulerEvent) -> bool {
        event == SchedulerEvent::Finished && self.running
    }
}

/// The scheduler after the events, from an idle one.
pub open spec fn scheduler_after(events: Seq<SchedulerEvent>) -> SchedulerView
    decreases events.len(),
{
    if events.len() == 0 {
        SchedulerView::idle()
    } else {
        scheduler_after(events.drop_last()).after(events.last())
    }
}

/// How many cycles the events started, from an idle scheduler.
pub open spec fn cycles_started(events: Seq<SchedulerEvent>) -> nat
    decreases events.len(),
{
    if events.len() == 0 {
        0
    } else {
        let earlier = cycles_started(events.drop_last());
        if scheduler_after(events.drop_last()).starts(events.last()) {
            earlier + 1
        } else {
            earlier
        }
    }
}

/// How many cycles the events ended, from an idle scheduler.
pub open spec fn cycles_ended(events: Seq<SchedulerEvent>) -> nat
    decreases events.len(),
{
    if events.len() == 0 {
        0
    } else {
        let earlier = cycles_ended(events.drop_last());
        if scheduler_after(events.drop_last()).ends(events.last()) {
            earlier + 1
        } else {
            earlier
        }
    }
}

/// Cycles never overlap: whatever the events, the cycles started are those
/// ended and, while one runs, that one more.
pub proof fn lemma_cycles_never_overlap(events: Seq<SchedulerEvent>)
    ensures
        scheduler_after(events).well_formed(),
        cycles_started(events) == cycles_ended(events) + (if scheduler_after(events).running {
            1nat
        } else {
            0nat
        }),
    decreases events.len(),
{
    if events.len() > 0 {
        lemma_cycles_never_overlap(events.drop_last());
    }
}

/// A request is never lost: after a request, a cycle runs that started with
/// it, or one is held to start when the running one is over.
pub proof fn lemma_request_is_served(state: SchedulerView, trigger: Trigger)
    requires
        state.well_formed(),
    ensures
        state.starts(SchedulerEvent::Triggered(trigger)) || state.after(
            SchedulerEvent::Triggered(trigger),
        ).starts(SchedulerEvent::Finished),
{
}

/// Decides when a cycle starts.
pub struct Scheduler {
    running: bool,
    held: bool,
}

impl View for Scheduler {
    type V = SchedulerView;

    closed spec fn view(&self) -> SchedulerView {
        SchedulerView { running: self.running, held: self.held }
    }
}

impl Scheduler {
    #[verifier::type_invariant]
    spec fn well_formed(self) -> bool {
        self.held ==> self.running
    }

    /// A scheduler with nothing running and nothing held.
    pub fn new() -> (scheduler: Scheduler)
        ensures
            scheduler@ == SchedulerView::idle(),
    {
        Scheduler { running: false, held: false }
    }

    /// Takes a request for a cycle and says whether to start one now. While
    /// a cycle runs the request is held instead.
    pub fn trigger(&mut self, trigger: Trigger) -> (start: bool)
        ensures
            final(self)@ == old(self)@.after(SchedulerEvent::Triggered(trigger)),
            start == old(self)@.starts(SchedulerEvent::Triggered(trigger)),
            final(self)@.well_formed(),
    {
        proof {
            use_type_invariant(&*self);
        }
        if self.running {
            self.held = true;
            false
        } else {
            self.running = true;
            true
        }
    }

    /// Takes the end of a cycle and says whether to start the next one at
    /// once, which is so when a request is held.
    pub fn cycle_finished(&mut self) -> (start: bool)
        ensures
            final(self)@ == old(self)@.after(SchedulerEvent::Finished),
            start == old(self)@.starts(SchedulerEvent::Finished),
            final(self)@.well_formed(),
    {
        proof {
            use_type_invariant(&*self);
        }
        if self.held {
            self.held = false;
            true
        } else {
            self.running = false;
            false
        }
    }

    /// Whether a cycle runs.
    pub fn is_running(&self) -> (running: bool)
        ensures
            running == self@.running,
    {
        self.running
    }

    /// Whether a request is held until the running cycle is over.
    pub fn is_held(&self) -> (held: bool)
        ensures
            held == self@.held,
    {
        self.held
    }
}

} // verus!
