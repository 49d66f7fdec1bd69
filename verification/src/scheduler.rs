//! The step scheduler: accumulates elapsed time against a fixed period.
//!
//! Time is counted in whole units chosen by the caller (nanoseconds, say);
//! the scheduler only adds, compares and subtracts them.

use vstd::prelude::*;
use crate::board::changes_between;
use crate::cell::Change;
use crate::grid::Grid;
use crate::neighbors::NeighborCounter;
use crate::rules::RuleEngine;

verus! {

/// Whether the scheduler lets time pass.
#[derive(Clone, Copy, Debug, PartialEq, Eq, Structural)]
pub enum SchedulerState {
    Running,
    Paused,
}

/// The model of a scheduler.
pub struct SchedulerView {
    pub accumulator: nat,
    pub period: nat,
    pub state: SchedulerState,
}

impl SchedulerView {
    /// The scheduler after a pause/resume toggle: only the state flips.
    pub open spec fn toggled(self) -> SchedulerView {
        SchedulerView {
            state: match self.state {
                SchedulerState::Running => SchedulerState::Paused,
                SchedulerState::Paused => SchedulerState::Running,
            },
            ..self
        }
    }

    /// Whether advancing by `dt` fires a step: the scheduler runs and the
    /// accumulated time reaches the period.
    pub open spec fn due(self, dt: nat) -> bool {
        self.state == SchedulerState::Running && self.accumulator + dt >= self.period
    }

    /// The scheduler after advancing by `dt`. Paused, nothing changes.
    /// Running, `dt` is added to the accumulator, and when a step fires one
    /// period is taken off, so that what exceeds it carries over.
    pub open spec fn advanced(self, dt: nat) -> SchedulerView {
        if self.state == SchedulerState::Paused {
            self
        } else if self.accumulator + dt >= self.period {
            SchedulerView { accumulator: (self.accumulator + dt - self.period) as nat, ..self }
        } else {
            SchedulerView { accumulator: self.accumulator + dt, ..self }
        }
    }
}

/// Pausing and resuming at once leaves no trace: two toggles in a row give
/// back the same scheduler, in the same state and with the same accumulator,
/// so whatever is advanced next fires, or does not, exactly as it would have
/// without them.
pub proof fn lemma_toggle_twice(s: SchedulerView, dt: nat)
    ensures
        s.toggled().toggled() == s,
        s.toggled().accumulator == s.accumulator,
        s.toggled().toggled().due(dt) == s.due(dt),
        s.toggled().toggled().advanced(dt) == s.advanced(dt),
{
}

/// While paused, time stands still: advancing by any amount fires nothing
/// and changes nothing, and after resuming the accumulator is where it was.
pub proof fn lemma_paused_time_stands_still(s: SchedulerView, dt: nat)
    requires
        s.state == SchedulerState::Paused,
    ensures
        !s.due(dt),
        s.advanced(dt) == s,
        s.advanced(dt).toggled().accumulator == s.accumulator,
{
}

/// Fires at most one generation step per call of `advance`, once the time
/// accumulated since the last step reaches the period.
#[derive(Clone, Copy, Debug)]
pub struct Scheduler {
    accumulator: u64,
    period: u64,
    state: SchedulerState,
}

impl View for Scheduler {
    type V = SchedulerView;

    closed spec fn view(&self) -> SchedulerView {
        SchedulerView {
            accumulator: self.accumulator as nat,
            period: self.period as nat,
            state: self.state,
        }
    }
}

impl Scheduler {
    /// A running scheduler with the given period and nothing accumulated.
    pub fn new(period: u64) -> (scheduler: Scheduler)
        ensures
            scheduler@ == (SchedulerView {
                accumulator: 0,
                period: period as nat,
                state: SchedulerState::Running,
            }),
    {
        Scheduler { accumulator: 0, period, state: SchedulerState::Running }
    }

    /// The time accumulated towards the next step.
    pub fn accumulator(&self) -> (a: u64)
        ensures
            a == self@.accumulator,
    {
        self.accumulator
    }

    /// The time between two steps.
    pub fn period(&self) -> (p: u64)
        ensures
            p == self@.period,
    {
        self.period
    }

    /// Whether the scheduler is running or paused.
    pub fn state(&self) -> (s: SchedulerState)
        ensures
            s == self@.state,
    {
        self.state
    }

    /// Whether the scheduler is paused.
    pub fn is_paused(&self) -> (p: bool)
        ensures
            p == (self@.state == SchedulerState::Paused),
    {
        self.state == SchedulerState::Paused
    }

    /// Flips between running and paused. The accumulator is not touched, so
    /// time neither jumps nor is lost across a pause.
    pub fn toggle(&mut self)
        ensures
            final(self)@ == old(self)@.toggled(),
    {
        self.state = match self.state {
            SchedulerState::Running => SchedulerState::Paused,
            SchedulerState::Paused => SchedulerState::Running,
        };
    }

    /// Lets `dt` units of time pass. Paused, this does nothing. Running, `dt`
    /// is added to the accumulator; if that reaches the period, the grid is
    /// stepped exactly once and one period is subtracted, whatever remains
    /// carrying over to later calls. Returns the step's change list, or `None`
    /// when no step was made.
    ///
    /// The sum of accumulator and `dt` must fit the counter while running.
    pub fn advance(
        &mut self,
        dt: u64,
        grid: &mut Grid,
        rule_engine: &RuleEngine,
        neighbor_counter: &NeighborCounter,
    ) -> (fired: Option<Vec<Change>>)
        requires
            old(grid).wf(),
            old(self)@.state == SchedulerState::Paused || old(self)@.accumulator + dt <= u64::MAX,
        ensures
            final(grid).wf(),
            final(self)@ == old(self)@.advanced(dt as nat),
            old(self)@.due(dt as nat) ==> final(grid)@ == old(grid)@.stepped(
                rule_engine.variant,
                neighbor_counter.variant,
            ) && fired.is_some() && fired.unwrap()@ == changes_between(
                old(grid)@.current,
                old(grid)@.pending,
            ),
            !old(self)@.due(dt as nat) ==> final(grid)@ == old(grid)@ && fired.is_none(),
    {
        if self.state == SchedulerState::Paused {
            return None;
        }
        let total: u64 = self.accumulator + dt;
        if total >= self.period {
            self.accumulator = total - self.period;
            let changes = grid.step(rule_engine, neighbor_counter);
            Some(changes)
        } else {
            self.accumulator = total;
            None
        }
    }
}

} // verus!
