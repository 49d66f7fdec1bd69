//! Cell states and the small value types shared by the rest of the crate.

use vstd::prelude::*;

verus! {

/// The state of one cell.
///
/// The classic rule set uses `Empty` (a dead cell) and `Alive`. The team rule
/// set uses `Empty`, `Neutral` (occupied, but owned by no single team) and
/// `Team(n)` (owned by team `n`). `Empty` is the value every cell starts with
/// and the value the pending buffer is reset to, whatever the rule set.
#[derive(Clone, Copy, Debug, PartialEq, Eq, Structural)]
pub enum CellState {
    Empty,
    Alive,
    Neutral,
    Team(u8),
}

/// Which rule set a simulation runs.
#[derive(Clone, Copy, Debug, PartialEq, Eq, Structural)]
pub enum Variant {
    /// Two states, birth on three neighbours, survival on two or three.
    Classic,
    /// The same birth and survival counts; a live cell is owned by the team
    /// its neighbours agree on, or by nobody when they disagree.
    Team,
}

/// What a scan of the eight neighbours of a cell reports.
#[derive(Clone, Copy, Debug, PartialEq, Eq, Structural)]
pub struct Aggregate {
    /// Number of neighbours that count as alive, `0..=8`.
    pub alive_count: u8,
    /// The owner the live neighbours vote for: `Empty` when there is none,
    /// their common state when they agree, `Neutral` when they do not.
    pub team_vote: CellState,
}

/// Notification that the current state of the cell at `(x, y)` became `state`.
#[derive(Clone, Copy, Debug, PartialEq, Eq, Structural)]
pub struct Change {
    pub x: usize,
    pub y: usize,
    pub state: CellState,
}

/// The ways a grid operation can fail.
#[derive(Clone, Copy, Debug, PartialEq, Eq, Structural)]
pub enum GridError {
    /// A coordinate outside `[0, width) x [0, height)` was given.
    OutOfBounds,
    /// An evaluation phase was started while some pending value was not
    /// empty, that is, without a commit phase directly before it.
    InvariantViolation,
}

impl CellState {
    /// Whether the cell is unoccupied.
    pub fn is_empty(self) -> (r: bool)
        ensures
            r == (self == CellState::Empty),
    {
        self == CellState::Empty
    }
}

} // verus!
