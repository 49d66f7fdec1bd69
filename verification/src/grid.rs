//! The grid: a dense rectangle of cells, each with a current and a pending state.

use vstd::prelude::*;
use crate::board::{
    changes_between, changes_upto, column_changes, evolve, evolve_at, generations,
    lemma_generations_shift, Board,
};
use crate::cell::{CellState, Change, GridError, Variant};
use crate::neighbors::NeighborCounter;
use crate::rules::RuleEngine;

verus! {

/// One cell: the state it is in, and the state computed for the next generation.
#[derive(Clone, Copy, Debug, PartialEq, Eq, Structural)]
pub struct Cell {
    pub current: CellState,
    pub pending: CellState,
}

/// The model of a grid: its two planes.
pub struct GridView {
    pub current: Board,
    pub pending: Board,
}

impl GridView {
    /// Both planes are full rectangles of the same size.
    pub open spec fn wf(self) -> bool {
        &&& self.current.wf()
        &&& self.pending.wf()
        &&& self.pending.width == self.current.width
        &&& self.pending.height == self.current.height
    }

    /// A grid of the given size with every current and pending state empty.
    pub open spec fn blank(width: nat, height: nat) -> GridView {
        GridView { current: Board::empty(width, height), pending: Board::empty(width, height) }
    }

    /// This grid with `state` written to both planes at `(x, y)`.
    pub open spec fn placed(self, x: int, y: int, state: CellState) -> GridView {
        GridView {
            current: self.current.with(x, y, state),
            pending: self.pending.with(x, y, state),
        }
    }

    /// This grid after one generation step: the pending plane is committed,
    /// and its next generation becomes the new pending plane.
    pub open spec fn stepped(self, rule: Variant, counting: Variant) -> GridView {
        GridView { current: self.pending, pending: evolve(self.pending, rule, counting) }
    }

    /// Whether the pending plane holds the next generation of the current
    /// plane, as it does after every step until a click writes to the grid.
    pub open spec fn settled(self, rule: Variant, counting: Variant) -> bool {
        self.pending == evolve(self.current, rule, counting)
    }

    /// This grid after `n` generation steps.
    pub open spec fn stepped_n(self, rule: Variant, counting: Variant, n: nat) -> GridView
        decreases n,
    {
        if n == 0 {
            self
        } else {
            self.stepped_n(rule, counting, (n - 1) as nat).stepped(rule, counting)
        }
    }
}

/// Steps and generations. One step commits the pending plane, so after
/// `n + 1` steps the current plane is the `n`-th generation of what was
/// pending at the start. On a settled grid, whose pending plane is already
/// the next generation of its current plane, `n` steps advance the current
/// plane by `n` generations. Every step leaves the grid settled.
pub proof fn lemma_steps_are_generations(g: GridView, rule: Variant, counting: Variant, n: nat)
    ensures
        g.stepped_n(rule, counting, n + 1).current == generations(g.pending, rule, counting, n),
        g.stepped_n(rule, counting, n + 1).settled(rule, counting),
        g.settled(rule, counting) ==> g.stepped_n(rule, counting, n).current == generations(
            g.current,
            rule,
            counting,
            n,
        ),
    decreases n,
{
    reveal_with_fuel(GridView::stepped_n, 2);
    if n > 0 {
        lemma_steps_are_generations(g, rule, counting, (n - 1) as nat);
        lemma_generations_shift(g.current, rule, counting, (n - 1) as nat);
    }
}

/// A fixed-size rectangle of cells indexed by `(x, y)` with `x < width` and
/// `y < height`.
pub struct Grid {
    width: usize,
    height: usize,
    cells: Vec<Vec<Cell>>,
}

impl View for Grid {
    type V = GridView;

    closed spec fn view(&self) -> GridView {
        GridView {
            current: Board::from_fn(
                self.width as nat,
                self.height as nat,
                |x: int, y: int| self.cells@[x]@[y].current,
            ),
            pending: Board::from_fn(
                self.width as nat,
                self.height as nat,
                |x: int, y: int| self.cells@[x]@[y].pending,
            ),
        }
    }
}

impl Grid {
    /// The storage holds exactly one cell for every coordinate.
    pub closed spec fn dense(&self) -> bool {
        &&& self.cells@.len() == self.width
        &&& forall|x: int| 0 <= x < self.width ==> (#[trigger] self.cells@[x])@.len() == self.height
    }

    /// Well-formedness: established by `new`, kept by every method.
    pub open spec fn wf(&self) -> bool {
        self.dense() && self@.wf()
    }

    /// Number of columns, in contracts.
    pub open spec fn spec_width(&self) -> nat {
        self@.current.width
    }

    /// Number of rows, in contracts.
    pub open spec fn spec_height(&self) -> nat {
        self@.current.height
    }

    /// A grid of `width` x `height` cells, all empty.
    pub fn new(width: usize, height: usize) -> (grid: Grid)
        ensures
            grid.wf(),
            grid@ == GridView::blank(width as nat, height as nat),
    {
        let mut cells: Vec<Vec<Cell>> = Vec::new();
        let mut x: usize = 0;
        while x < width
            invariant
                x <= width,
                cells@.len() == x,
                forall|i: int| 0 <= i < x ==> (#[trigger] cells@[i])@.len() == height,
                forall|i: int, j: int|
                    0 <= i < x && 0 <= j < height ==> (#[trigger] cells@[i]@[j]) == (Cell {
                        current: CellState::Empty,
                        pending: CellState::Empty,
                    }),
            decreases width - x,
        {
            let mut col: Vec<Cell> = Vec::new();
            let mut y: usize = 0;
            while y < height
                invariant
                    y <= height,
                    col@.len() == y,
                    forall|j: int|
                        0 <= j < y ==> (#[trigger] col@[j]) == (Cell {
                            current: CellState::Empty,
                            pending: CellState::Empty,
                        }),
                decreases height - y,
            {
                col.push(Cell { current: CellState::Empty, pending: CellState::Empty });
                y += 1;
            }
            cells.push(col);
            x += 1;
        }
        let grid = Grid { width, height, cells };
        proof {
            let blank = GridView::blank(width as nat, height as nat);
            assert(grid@.current.cols =~~= blank.current.cols);
            assert(grid@.pending.cols =~~= blank.pending.cols);
        }
        grid
    }

    /// Number of columns.
    pub fn width(&self) -> (w: usize)
        ensures
            w == self.spec_width(),
    {
        self.width
    }

    /// Number of rows.
    pub fn height(&self) -> (h: usize)
        ensures
            h == self.spec_height(),
    {
        self.height
    }

    /// The current state of the cell at `(x, y)`, or `OutOfBounds` when the
    /// coordinate is not on the grid.
    pub fn get(&self, x: usize, y: usize) -> (r: Result<CellState, GridError>)
        requires
            self.wf(),
        ensures
            r == if self@.current.contains(x as int, y as int) {
                Ok::<CellState, GridError>(self@.current.at(x as int, y as int))
            } else {
                Err::<CellState, GridError>(GridError::OutOfBounds)
            },
    {
        if x < self.width && y < self.height {
            Ok(self.cells[x][y].current)
        } else {
            Err(GridError::OutOfBounds)
        }
    }

    /// The current state of a cell that is known to be on the grid.
    pub(crate) fn current_at(&self, x: usize, y: usize) -> (s: CellState)
        requires
            self.wf(),
            self@.current.contains(x as int, y as int),
        ensures
            s == self@.current.at(x as int, y as int),
    {
        self.cells[x][y].current
    }

    /// Overwrites the current state of the cell at `(x, y)`; the pending
    /// plane is left as it is. Fails with `OutOfBounds`, changing nothing,
    /// when the coordinate is not on the grid.
    pub fn set_current(&mut self, x: usize, y: usize, state: CellState) -> (r: Result<(), GridError>)
        requires
            old(self).wf(),
        ensures
            final(self).wf(),
            old(self)@.current.contains(x as int, y as int) ==> r == Ok::<(), GridError>(())
                && final(self)@ == (GridView {
                current: old(self)@.current.with(x as int, y as int, state),
                pending: old(self)@.pending,
            }),
            !old(self)@.current.contains(x as int, y as int) ==> r == Err::<(), GridError>(
                GridError::OutOfBounds,
            ) && final(self)@ == old(self)@,
    {
        if x < self.width && y < self.height {
            self.cells[x][y].current = state;
            proof {
                let want = old(self)@.current.with(x as int, y as int, state);
                assert(self@.current.cols =~~= want.cols);
                assert(self@.pending.cols =~~= old(self)@.pending.cols);
            }
            Ok(())
        } else {
            Err(GridError::OutOfBounds)
        }
    }

    /// Writes `state` to both planes at `(x, y)`, so that it is visible at
    /// once and survives the next commit.
    pub(crate) fn place(&mut self, x: usize, y: usize, state: CellState)
        requires
            old(self).wf(),
            old(self)@.current.contains(x as int, y as int),
        ensures
            final(self).wf(),
            final(self)@ == old(self)@.placed(x as int, y as int, state),
    {
        self.cells[x][y] = Cell { current: state, pending: state };
        proof {
            let want = old(self)@.placed(x as int, y as int, state);
            assert(self@.current.cols =~~= want.current.cols);
            assert(self@.pending.cols =~~= want.pending.cols);
        }
    }

    /// Commit phase: every cell's pending state becomes its current state and
    /// its pending state is reset to `Empty`. Returns the dirty list: the
    /// cells whose current state changed, with their new state.
    pub fn commit(&mut self) -> (changes: Vec<Change>)
        requires
            old(self).wf(),
        ensures
            final(self).wf(),
            final(self)@.current == old(self)@.pending,
            final(self)@.pending == Board::empty(old(self).spec_width(), old(self).spec_height()),
            changes@ == changes_between(old(self)@.current, old(self)@.pending),
    {
        let ghost before = old(self)@.current;
        let ghost after = old(self)@.pending;
        let mut changes: Vec<Change> = Vec::new();
        let mut x: usize = 0;
        while x < self.width
            invariant
                x <= self.width,
                self.dense(),
                self.width == old(self).width,
                self.height == old(self).height,
                before == old(self)@.current,
                after == old(self)@.pending,
                forall|i: int, j: int|
                    0 <= i < x && 0 <= j < self.height ==> (#[trigger] self.cells@[i]@[j]) == (Cell {
                        current: old(self).cells@[i]@[j].pending,
                        pending: CellState::Empty,
                    }),
                forall|i: int, j: int|
                    x <= i < self.width && 0 <= j < self.height ==> (#[trigger] self.cells@[i]@[j])
                        == old(self).cells@[i]@[j],
                changes@ == changes_upto(before, after, x as nat),
            decreases self.width - x,
        {
            let ghost done = changes@;
            let mut y: usize = 0;
            while y < self.height
                invariant
                    x < self.width,
                    y <= self.height,
                    self.dense(),
                    self.width == old(self).width,
                    self.height == old(self).height,
                    before == old(self)@.current,
                    after == old(self)@.pending,
                    forall|i: int, j: int|
                        0 <= i < x && 0 <= j < self.height ==> (#[trigger] self.cells@[i]@[j]) == (
                        Cell {
                            current: old(self).cells@[i]@[j].pending,
                            pending: CellState::Empty,
                        }),
                    forall|j: int|
                        0 <= j < y ==> (#[trigger] self.cells@[x as int]@[j]) == (Cell {
                            current: old(self).cells@[x as int]@[j].pending,
                            pending: CellState::Empty,
                        }),
                    forall|j: int|
                        y <= j < self.height ==> (#[trigger] self.cells@[x as int]@[j]) == old(
                            self,
                        ).cells@[x as int]@[j],
                    forall|i: int, j: int|
                        x < i < self.width && 0 <= j < self.height ==> (
                        #[trigger] self.cells@[i]@[j]) == old(self).cells@[i]@[j],
                    changes@ == done + column_changes(before, after, x as int, y as nat),
                decreases self.height - y,
            {
                let cell = self.cells[x][y];
                if cell.pending != cell.current {
                    changes.push(Change { x, y, state: cell.pending });
                }
                self.cells[x][y] = Cell { current: cell.pending, pending: CellState::Empty };
                proof {
                    assert(before.at(x as int, y as int) == cell.current);
                    assert(after.at(x as int, y as int) == cell.pending);
                    assert(changes@ =~= done + column_changes(
                        before,
                        after,
                        x as int,
                        (y + 1) as nat,
                    ));
                }
                y += 1;
            }
            x += 1;
        }
        proof {
            let empty = Board::empty(old(self).spec_width(), old(self).spec_height());
            assert(self@.current.cols =~~= after.cols);
            assert(self@.pending.cols =~~= empty.cols);
        }
        changes
    }

    /// Whether every pending state is `Empty`.
    fn pending_all_empty(&self) -> (r: bool)
        requires
            self.wf(),
        ensures
            r == self@.pending.all_empty(),
    {
        let mut x: usize = 0;
        while x < self.width
            invariant
                x <= self.width,
                self.wf(),
                forall|i: int, j: int|
                    0 <= i < x && 0 <= j < self.height ==> #[trigger] self@.pending.at(i, j)
                        == CellState::Empty,
            decreases self.width - x,
        {
            let mut y: usize = 0;
            while y < self.height
                invariant
                    x < self.width,
                    y <= self.height,
                    self.wf(),
                    forall|i: int, j: int|
                        0 <= i < x && 0 <= j < self.height ==> #[trigger] self@.pending.at(i, j)
                            == CellState::Empty,
                    forall|j: int|
                        0 <= j < y ==> #[trigger] self@.pending.at(x as int, j) == CellState::Empty,
                decreases self.height - y,
            {
                if self.cells[x][y].pending != CellState::Empty {
                    assert(self@.pending.at(x as int, y as int) != CellState::Empty);
                    return false;
                }
                y += 1;
            }
            x += 1;
        }
        true
    }

    /// Writes into every cell's pending state the next state computed from
    /// the current plane.
    fn fill_pending(&mut self, rule_engine: &RuleEngine, neighbor_counter: &NeighborCounter)
        requires
            old(self).wf(),
        ensures
            final(self).wf(),
            final(self)@.current == old(self)@.current,
            final(self)@.pending == evolve(
                old(self)@.current,
                rule_engine.variant,
                neighbor_counter.variant,
            ),
    {
        let ghost board = old(self)@.current;
        let ghost rule = rule_engine.variant;
        let ghost counting = neighbor_counter.variant;
        let mut x: usize = 0;
        while x < self.width
            invariant
                x <= self.width,
                self.wf(),
                self.width == old(self).width,
                self.height == old(self).height,
                board == old(self)@.current,
                rule == rule_engine.variant,
                counting == neighbor_counter.variant,
                self@.current == board,
                forall|i: int, j: int|
                    0 <= i < x && 0 <= j < self.height ==> (#[trigger] self.cells@[i]@[j]).pending
                        == evolve_at(board, rule, counting, i, j),
            decreases self.width - x,
        {
            let mut y: usize = 0;
            while y < self.height
                invariant
                    x < self.width,
                    y <= self.height,
                    self.wf(),
                    self.width == old(self).width,
                    self.height == old(self).height,
                    board == old(self)@.current,
                    rule == rule_engine.variant,
                    counting == neighbor_counter.variant,
                    self@.current == board,
                    forall|i: int, j: int|
                        0 <= i < x && 0 <= j < self.height ==> (
                        #[trigger] self.cells@[i]@[j]).pending == evolve_at(
                            board,
                            rule,
                            counting,
                            i,
                            j,
                        ),
                    forall|j: int|
                        0 <= j < y ==> (#[trigger] self.cells@[x as int]@[j]).pending == evolve_at(
                            board,
                            rule,
                            counting,
                            x as int,
                            j,
                        ),
                decreases self.height - y,
            {
                let aggregate = neighbor_counter.scan(self, x, y);
                let current = self.cells[x][y].current;
                let next = rule_engine.next(current, aggregate);
                self.cells[x][y].pending = next;
                proof {
                    assert(current == board.at(x as int, y as int));
                    assert(next == evolve_at(board, rule, counting, x as int, y as int));
                    assert(self@.current.cols =~~= board.cols);
                }
                y += 1;
            }
            x += 1;
        }
        proof {
            let want = evolve(board, rule, counting);
            assert(self@.pending.cols =~~= want.cols);
        }
    }

    /// Evaluation phase: every cell's pending state becomes the next state
    /// computed from the current plane, which is left as it is. The phase
    /// must start with every pending state empty, as a commit leaves them;
    /// otherwise nothing is changed and `InvariantViolation` is returned.
    pub fn evaluate(&mut self, rule_engine: &RuleEngine, neighbor_counter: &NeighborCounter) -> (r:
        Result<(), GridError>)
        requires
            old(self).wf(),
        ensures
            final(self).wf(),
            old(self)@.pending.all_empty() ==> r == Ok::<(), GridError>(()) && final(self)@ == (
            GridView {
                current: old(self)@.current,
                pending: evolve(old(self)@.current, rule_engine.variant, neighbor_counter.variant),
            }),
            !old(self)@.pending.all_empty() ==> r == Err::<(), GridError>(
                GridError::InvariantViolation,
            ) && final(self)@ == old(self)@,
    {
        if !self.pending_all_empty() {
            return Err(GridError::InvariantViolation);
        }
        self.fill_pending(rule_engine, neighbor_counter);
        Ok(())
    }

    /// One generation step, in two phases over the whole grid. First the
    /// commit phase: what the previous step computed becomes the current
    /// plane. Then the evaluation phase: the pending plane receives the next
    /// generation of the plane just committed. Returns the cells whose
    /// current state changed, with their new state.
    pub fn step(&mut self, rule_engine: &RuleEngine, neighbor_counter: &NeighborCounter) -> (changes:
        Vec<Change>)
        requires
            old(self).wf(),
        ensures
            final(self).wf(),
            final(self)@.current == old(self)@.pending,
            final(self)@.pending == evolve(
                old(self)@.pending,
                rule_engine.variant,
                neighbor_counter.variant,
            ),
            final(self)@ == old(self)@.stepped(rule_engine.variant, neighbor_counter.variant),
            changes@ == changes_between(old(self)@.current, old(self)@.pending),
    {
        let changes = self.commit();
        self.fill_pending(rule_engine, neighbor_counter);
        changes
    }
}

} // verus!
