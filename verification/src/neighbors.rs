//! The neighbour counter: scans the eight neighbours of a cell on the torus.

use vstd::prelude::*;
use crate::board::{
    aggregate_of, alive_among, counts, lemma_vote_extend, lemma_wrap_near, neighbor, neighborhood,
    offset, vote_among, wrap,
};
use crate::cell::{Aggregate, CellState, GridError, Variant};
use crate::grid::Grid;

verus! {

impl Variant {
    /// Whether a neighbour in state `s` counts as alive: under the classic
    /// rules a cell that is `Alive`, under the team rules any cell that is
    /// not `Empty`.
    pub fn counts_as_alive(self, s: CellState) -> (r: bool)
        ensures
            r == counts(self, s),
    {
        match self {
            Variant::Classic => s == CellState::Alive,
            Variant::Team => s != CellState::Empty,
        }
    }
}

/// The `k`-th neighbour offset.
fn offset_at(k: u8) -> (d: (i8, i8))
    requires
        k < 8,
    ensures
        d.0 == offset(k as int).0,
        d.1 == offset(k as int).1,
        -1 <= d.0 <= 1,
        -1 <= d.1 <= 1,
{
    match k {
        0 => (-1, -1),
        1 => (-1, 0),
        2 => (-1, 1),
        3 => (0, -1),
        4 => (0, 1),
        5 => (1, -1),
        6 => (1, 0),
        _ => (1, 1),
    }
}

/// The coordinate `i + d` wrapped onto `0..n`.
fn shifted(i: usize, d: i8, n: usize) -> (r: usize)
    requires
        i < n,
        -1 <= d <= 1,
    ensures
        r == wrap(i + d, n as nat),
        r < n,
{
    proof {
        lemma_wrap_near(i + d, n as nat);
    }
    if d < 0 {
        if i == 0 {
            n - 1
        } else {
            i - 1
        }
    } else if d > 0 {
        if i == n - 1 {
            0
        } else {
            i + 1
        }
    } else {
        i
    }
}

/// Counts live neighbours and resolves their vote, as its variant says.
#[derive(Clone, Copy, Debug)]
pub struct NeighborCounter {
    pub variant: Variant,
}

impl NeighborCounter {
    /// A counter for the given rule set.
    pub fn new(variant: Variant) -> (counter: NeighborCounter)
        ensures
            counter.variant == variant,
    {
        NeighborCounter { variant }
    }

    /// The aggregate over the eight neighbours of `(x, y)`, read from the
    /// current plane with coordinates wrapping at the edges. Fails with
    /// `OutOfBounds` when `(x, y)` is not on the grid.
    pub fn count(&self, grid: &Grid, x: usize, y: usize) -> (r: Result<Aggregate, GridError>)
        requires
            grid.wf(),
        ensures
            r == if grid@.current.contains(x as int, y as int) {
                Ok::<Aggregate, GridError>(
                    aggregate_of(self.variant, neighborhood(grid@.current, x as int, y as int)),
                )
            } else {
                Err::<Aggregate, GridError>(GridError::OutOfBounds)
            },
    {
        if x < grid.width() && y < grid.height() {
            Ok(self.scan(grid, x, y))
        } else {
            Err(GridError::OutOfBounds)
        }
    }

    /// The aggregate over the eight neighbours of a cell known to be on the grid.
    pub(crate) fn scan(&self, grid: &Grid, x: usize, y: usize) -> (agg: Aggregate)
        requires
            grid.wf(),
            grid@.current.contains(x as int, y as int),
        ensures
            agg == aggregate_of(self.variant, neighborhood(grid@.current, x as int, y as int)),
    {
        let width = grid.width();
        let height = grid.height();
        let ghost ns = neighborhood(grid@.current, x as int, y as int);
        let mut alive_count: u8 = 0;
        let mut team_vote = CellState::Empty;
        let mut k: u8 = 0;
        while k < 8
            invariant
                k <= 8,
                grid.wf(),
                width == grid.spec_width(),
                height == grid.spec_height(),
                x < width,
                y < height,
                ns == neighborhood(grid@.current, x as int, y as int),
                alive_count == alive_among(self.variant, ns, k as nat),
                alive_count <= k,
                team_vote == vote_among(self.variant, ns, k as nat),
            decreases 8 - k,
        {
            let (dx, dy) = offset_at(k);
            let nx = shifted(x, dx, width);
            let ny = shifted(y, dy, height);
            let s = grid.current_at(nx, ny);
            proof {
                assert(s == neighbor(grid@.current, x as int, y as int, k as int));
                assert(s == ns[k as int]);
                lemma_vote_extend(self.variant, ns, k as nat);
            }
            if self.variant.counts_as_alive(s) {
                alive_count += 1;
                if team_vote == CellState::Empty {
                    team_vote = s;
                } else if team_vote != s {
                    team_vote = CellState::Neutral;
                }
            }
            k += 1;
        }
        Aggregate { alive_count, team_vote }
    }
}

} // verus!
