//! The rule engine: the transition of one cell from its state and its neighbours.

use vstd::prelude::*;
use crate::board::next_state;
use crate::cell::{Aggregate, CellState, Variant};

verus! {

/// Maps a cell's state and its neighbour aggregate to its next state, as its
/// variant says. The transition does not depend on where the cell is.
#[derive(Clone, Copy, Debug)]
pub struct RuleEngine {
    pub variant: Variant,
}

impl RuleEngine {
    /// An engine for the given rule set.
    pub fn new(variant: Variant) -> (engine: RuleEngine)
        ensures
            engine.variant == variant,
    {
        RuleEngine { variant }
    }

    /// The next state of a cell. A cell lives when it has three live
    /// neighbours, or two and is itself alive; otherwise it becomes `Empty`.
    /// Under the classic rules a living cell is `Alive`; under the team rules
    /// it takes the neighbours' vote.
    pub fn next(&self, current: CellState, aggregate: Aggregate) -> (next: CellState)
        ensures
            next == next_state(self.variant, current, aggregate),
    {
        let occupied = self.variant.counts_as_alive(current);
        if (occupied && aggregate.alive_count == 2) || aggregate.alive_count == 3 {
            match self.variant {
                Variant::Classic => CellState::Alive,
                Variant::Team => aggregate.team_vote,
            }
        } else {
            CellState::Empty
        }
    }
}

} // verus!
