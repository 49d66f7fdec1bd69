//! The input mapper: from a pointer position to a cell, and from a click to
//! a direct change of that cell.

use vstd::prelude::*;
use crate::cell::{CellState, Change, GridError, Variant};
use crate::grid::Grid;

verus! {

/// The index of the cell nearest to `pixel` along one axis, for cells
/// `cell_size` pixels wide centred on the multiples of `cell_size`:
/// `pixel / cell_size` rounded to the nearest integer, halves upwards.
pub open spec fn nearest_cell(pixel: int, cell_size: int) -> int {
    (2 * pixel + cell_size) / (2 * cell_size)
}

/// The cell a pointer at `(pixel_x, pixel_y)` is on, if any: none when the
/// cell size is zero or the nearest cell is outside `width` x `height`.
pub open spec fn located(
    cell_size: nat,
    width: nat,
    height: nat,
    pixel_x: nat,
    pixel_y: nat,
) -> Option<(usize, usize)> {
    let x = nearest_cell(pixel_x as int, cell_size as int);
    let y = nearest_cell(pixel_y as int, cell_size as int);
    if cell_size > 0 && x < width && y < height {
        Some((x as usize, y as usize))
    } else {
        None
    }
}

/// The team a click claims a cell for: team 1 with the modifier held, team 2
/// without.
pub open spec fn claiming_team(modifier: bool) -> CellState {
    if modifier {
        CellState::Team(1)
    } else {
        CellState::Team(2)
    }
}

/// The state a click turns a cell in state `current` into. Under the classic
/// rules it toggles between `Alive` and `Empty`. Under the team rules it
/// claims the cell for the clicking team, or clears it when that team owns
/// it already.
pub open spec fn clicked_state(variant: Variant, current: CellState, modifier: bool) -> CellState {
    match variant {
        Variant::Classic => if current == CellState::Alive {
            CellState::Empty
        } else {
            CellState::Alive
        },
        Variant::Team => if current == claiming_team(modifier) {
            CellState::Empty
        } else {
            claiming_team(modifier)
        },
    }
}

/// Maps pointer positions to cells and applies clicks to a grid.
#[derive(Clone, Copy, Debug)]
pub struct InputMapper {
    /// Edge length of one cell, in pixels.
    pub cell_size: u32,
    /// The rule set, which decides what a click does.
    pub variant: Variant,
}

impl InputMapper {
    /// A mapper for cells of `cell_size` pixels under the given rule set.
    pub fn new(cell_size: u32, variant: Variant) -> (mapper: InputMapper)
        ensures
            mapper.cell_size == cell_size,
            mapper.variant == variant,
    {
        InputMapper { cell_size, variant }
    }

    /// The cell under a pointer at `(pixel_x, pixel_y)`, or `None` when the
    /// pointer is not over the grid. A miss is no error.
    pub fn locate(&self, grid: &Grid, pixel_x: u32, pixel_y: u32) -> (target: Option<(usize, usize)>)
        requires
            grid.wf(),
        ensures
            target == located(
                self.cell_size as nat,
                grid.spec_width(),
                grid.spec_height(),
                pixel_x as nat,
                pixel_y as nat,
            ),
    {
        if self.cell_size == 0 {
            return None;
        }
        let twice: u64 = 2 * (self.cell_size as u64);
        let x: u64 = (2 * (pixel_x as u64) + self.cell_size as u64) / twice;
        let y: u64 = (2 * (pixel_y as u64) + self.cell_size as u64) / twice;
        if x < grid.width() as u64 && y < grid.height() as u64 {
            Some((x as usize, y as usize))
        } else {
            None
        }
    }

    /// Applies a click to the cell at `(x, y)`: its new state is written to
    /// the current plane and to the pending plane, so that it shows at once
    /// and the next step starts from it. No rule is evaluated. Returns the
    /// change made, or `OutOfBounds`, with the grid untouched, when `(x, y)`
    /// is not on the grid.
    pub fn apply(&self, grid: &mut Grid, x: usize, y: usize, modifier: bool) -> (r: Result<
        Change,
        GridError,
    >)
        requires
            old(grid).wf(),
        ensures
            final(grid).wf(),
            old(grid)@.current.contains(x as int, y as int) ==> {
                let state = clicked_state(
                    self.variant,
                    old(grid)@.current.at(x as int, y as int),
                    modifier,
                );
                &&& r == Ok::<Change, GridError>(Change { x, y, state })
                &&& final(grid)@ == old(grid)@.placed(x as int, y as int, state)
            },
            !old(grid)@.current.contains(x as int, y as int) ==> r == Err::<Change, GridError>(
                GridError::OutOfBounds,
            ) && final(grid)@ == old(grid)@,
    {
        match grid.get(x, y) {
            Ok(current) => {
                let state = match self.variant {
                    Variant::Classic => if current == CellState::Alive {
                        CellState::Empty
                    } else {
                        CellState::Alive
                    },
                    Variant::Team => {
                        let team = if modifier {
                            CellState::Team(1)
                        } else {
                            CellState::Team(2)
                        };
                        if current == team {
                            CellState::Empty
                        } else {
                            team
                        }
                    },
                };
                grid.place(x, y, state);
                Ok(Change { x, y, state })
            },
            Err(e) => Err(e),
        }
    }

    /// Handles a click at pixel `(pixel_x, pixel_y)`: applies it to the cell
    /// under the pointer and returns the change, or does nothing and returns
    /// `None` when the pointer is not over the grid.
    pub fn click(&self, grid: &mut Grid, pixel_x: u32, pixel_y: u32, modifier: bool) -> (change:
        Option<Change>)
        requires
            old(grid).wf(),
        ensures
            final(grid).wf(),
            match located(
                self.cell_size as nat,
                old(grid).spec_width(),
                old(grid).spec_height(),
                pixel_x as nat,
                pixel_y as nat,
            ) {
                Some((x, y)) => {
                    let state = clicked_state(
                        self.variant,
                        old(grid)@.current.at(x as int, y as int),
                        modifier,
                    );
                    &&& change == Some(Change { x, y, state })
                    &&& final(grid)@ == old(grid)@.placed(x as int, y as int, state)
                },
                None => change.is_none() && final(grid)@ == old(grid)@,
            },
    {
        match self.locate(grid, pixel_x, pixel_y) {
            Some((x, y)) => {
                match self.apply(grid, x, y, modifier) {
                    Ok(change) => Some(change),
                    Err(_) => None,
                }
            },
            None => None,
        }
    }
}

} // verus!
