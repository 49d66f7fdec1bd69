//! The simulation as its surroundings see it: built from a configuration,
//! driven by three events, answering with change notifications.

use vstd::prelude::*;
use crate::board::changes_between;
use crate::cell::{Change, Variant};
use crate::grid::{Grid, GridView};
use crate::input::{clicked_state, located, InputMapper};
use crate::neighbors::NeighborCounter;
use crate::rules::RuleEngine;
use crate::scheduler::{Scheduler, SchedulerState, SchedulerView};

verus! {

/// What a simulation is built from.
#[derive(Clone, Copy, Debug)]
pub struct Config {
    /// Number of columns.
    pub width: usize,
    /// Number of rows.
    pub height: usize,
    /// Edge length of one cell, in pixels.
    pub cell_size: u32,
    /// Time between two generation steps, in the caller's time units.
    pub tick_period: u64,
    /// The rule set.
    pub variant: Variant,
}

/// The model of a simulation.
pub struct SimulationView {
    pub grid: GridView,
    pub scheduler: SchedulerView,
    pub variant: Variant,
    pub cell_size: nat,
}

/// A grid, the scheduler that steps it and the mapper that takes clicks for
/// it, all under one rule set.
pub struct Simulation {
    grid: Grid,
    scheduler: Scheduler,
    mapper: InputMapper,
    rule_engine: RuleEngine,
    neighbor_counter: NeighborCounter,
}

impl View for Simulation {
    type V = SimulationView;

    closed spec fn view(&self) -> SimulationView {
        SimulationView {
            grid: self.grid@,
            scheduler: self.scheduler@,
            variant: self.mapper.variant,
            cell_size: self.mapper.cell_size as nat,
        }
    }
}

impl Simulation {
    /// The parts agree on the rule set and the grid is well formed.
    pub closed spec fn consistent(&self) -> bool {
        &&& self.grid.wf()
        &&& self.rule_engine.variant == self.mapper.variant
        &&& self.neighbor_counter.variant == self.mapper.variant
    }

    /// Well-formedness: established by `new`, kept by every method.
    pub open spec fn wf(&self) -> bool {
        self.consistent() && self@.grid.wf()
    }

    /// A simulation with every cell empty, running, with nothing accumulated.
    pub fn new(config: Config) -> (sim: Simulation)
        ensures
            sim.wf(),
            sim@ == (SimulationView {
                grid: GridView::blank(config.width as nat, config.height as nat),
                scheduler: SchedulerView {
                    accumulator: 0,
                    period: config.tick_period as nat,
                    state: SchedulerState::Running,
                },
                variant: config.variant,
                cell_size: config.cell_size as nat,
            }),
    {
        Simulation {
            grid: Grid::new(config.width, config.height),
            scheduler: Scheduler::new(config.tick_period),
            mapper: InputMapper::new(config.cell_size, config.variant),
            rule_engine: RuleEngine::new(config.variant),
            neighbor_counter: NeighborCounter::new(config.variant),
        }
    }

    /// The grid, for reading.
    pub fn grid(&self) -> (grid: &Grid)
        requires
            self.wf(),
        ensures
            grid.wf(),
            grid@ == self@.grid,
    {
        &self.grid
    }

    /// The scheduler, for reading.
    pub fn scheduler(&self) -> (scheduler: &Scheduler)
        ensures
            scheduler@ == self@.scheduler,
    {
        &self.scheduler
    }

    /// The rule set.
    pub fn variant(&self) -> (variant: Variant)
        ensures
            variant == self@.variant,
    {
        self.mapper.variant
    }

    /// Lets `delta` units of time pass: the scheduler advances, and when it
    /// fires the grid makes one generation step, whose change list is
    /// returned. Returns `None` when no step was made.
    ///
    /// The sum of the scheduler's accumulator and `delta` must fit the
    /// counter while running.
    pub fn advance_time(&mut self, delta: u64) -> (fired: Option<Vec<Change>>)
        requires
            old(self).wf(),
            old(self)@.scheduler.state == SchedulerState::Paused || old(self)@.scheduler.accumulator
                + delta <= u64::MAX,
        ensures
            final(self).wf(),
            final(self)@.variant == old(self)@.variant,
            final(self)@.cell_size == old(self)@.cell_size,
            final(self)@.scheduler == old(self)@.scheduler.advanced(delta as nat),
            old(self)@.scheduler.due(delta as nat) ==> final(self)@.grid == old(self)@.grid.stepped(
                old(self)@.variant,
                old(self)@.variant,
            ) && fired.is_some() && fired.unwrap()@ == changes_between(
                old(self)@.grid.current,
                old(self)@.grid.pending,
            ),
            !old(self)@.scheduler.due(delta as nat) ==> final(self)@.grid == old(self)@.grid
                && fired.is_none(),
    {
        self.scheduler.advance(delta, &mut self.grid, &self.rule_engine, &self.neighbor_counter)
    }

    /// Handles a click at pixel `(pixel_x, pixel_y)`: the cell under the
    /// pointer changes at once, in both planes, and the change is returned.
    /// A click beside the grid does nothing and returns `None`.
    pub fn pointer_click(&mut self, pixel_x: u32, pixel_y: u32, modifier: bool) -> (change: Option<
        Change,
    >)
        requires
            old(self).wf(),
        ensures
            final(self).wf(),
            final(self)@.variant == old(self)@.variant,
            final(self)@.cell_size == old(self)@.cell_size,
            final(self)@.scheduler == old(self)@.scheduler,
            match located(
                old(self)@.cell_size,
                old(self)@.grid.current.width,
                old(self)@.grid.current.height,
                pixel_x as nat,
                pixel_y as nat,
            ) {
                Some((x, y)) => {
                    let state = clicked_state(
                        old(self)@.variant,
                        old(self)@.grid.current.at(x as int, y as int),
                        modifier,
                    );
                    &&& change == Some(Change { x, y, state })
                    &&& final(self)@.grid == old(self)@.grid.placed(x as int, y as int, state)
                },
                None => change.is_none() && final(self)@.grid == old(self)@.grid,
            },
    {
        self.mapper.click(&mut self.grid, pixel_x, pixel_y, modifier)
    }

    /// Pauses a running simulation, resumes a paused one. Nothing else
    /// changes.
    pub fn toggle_pause(&mut self)
        requires
            old(self).wf(),
        ensures
            final(self).wf(),
            final(self)@ == (SimulationView {
                scheduler: old(self)@.scheduler.toggled(),
                ..old(self)@
            }),
    {
        self.scheduler.toggle();
    }
}

} // verus!
