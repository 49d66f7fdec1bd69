use conway::cell::{CellState, Change, GridError, Variant};
use conway::grid::Grid;
use conway::neighbors::NeighborCounter;
use conway::rules::RuleEngine;

fn classic() -> (RuleEngine, NeighborCounter) {
    (RuleEngine::new(Variant::Classic), NeighborCounter::new(Variant::Classic))
}

#[test]
fn new_grid_is_all_empty() {
    let grid = Grid::new(5, 3);
    assert_eq!(grid.width(), 5);
    assert_eq!(grid.height(), 3);
    for x in 0..5 {
        for y in 0..3 {
            assert_eq!(grid.get(x, y), Ok(CellState::Empty));
        }
    }
}

#[test]
fn get_outside_the_grid_is_out_of_bounds() {
    let grid = Grid::new(5, 3);
    assert_eq!(grid.get(5, 0), Err(GridError::OutOfBounds));
    assert_eq!(grid.get(0, 3), Err(GridError::OutOfBounds));
    assert_eq!(grid.get(usize::MAX, usize::MAX), Err(GridError::OutOfBounds));
    assert_eq!(grid.get(4, 2), Ok(CellState::Empty));
}

#[test]
fn grid_without_cells_rejects_every_coordinate() {
    let mut grid = Grid::new(0, 4);
    assert_eq!(grid.get(0, 0), Err(GridError::OutOfBounds));
    assert_eq!(grid.set_current(0, 0, CellState::Alive), Err(GridError::OutOfBounds));
    let (engine, counter) = classic();
    assert_eq!(grid.step(&engine, &counter), vec![]);
}

#[test]
fn set_current_overwrites_one_cell() {
    let mut grid = Grid::new(4, 4);
    assert_eq!(grid.set_current(1, 2, CellState::Team(1)), Ok(()));
    for x in 0..4 {
        for y in 0..4 {
            let want = if (x, y) == (1, 2) { CellState::Team(1) } else { CellState::Empty };
            assert_eq!(grid.get(x, y), Ok(want));
        }
    }
    assert_eq!(grid.set_current(1, 2, CellState::Neutral), Ok(()));
    assert_eq!(grid.get(1, 2), Ok(CellState::Neutral));
}

#[test]
fn set_current_outside_the_grid_changes_nothing() {
    let mut grid = Grid::new(4, 4);
    assert_eq!(grid.set_current(4, 0, CellState::Alive), Err(GridError::OutOfBounds));
    assert_eq!(grid.set_current(0, 4, CellState::Alive), Err(GridError::OutOfBounds));
    for x in 0..4 {
        for y in 0..4 {
            assert_eq!(grid.get(x, y), Ok(CellState::Empty));
        }
    }
}

#[test]
fn set_current_does_not_touch_pending() {
    // The pending plane is still empty, so the next commit wipes the cell
    // and reports it.
    let mut grid = Grid::new(4, 4);
    grid.set_current(2, 1, CellState::Alive).unwrap();
    let changes = grid.commit();
    assert_eq!(changes, vec![Change { x: 2, y: 1, state: CellState::Empty }]);
    assert_eq!(grid.get(2, 1), Ok(CellState::Empty));
}

#[test]
fn evaluate_fills_pending_and_commit_realizes_it() {
    let (engine, counter) = classic();
    let mut grid = Grid::new(5, 5);
    // A row of three in the middle.
    grid.set_current(1, 2, CellState::Alive).unwrap();
    grid.set_current(2, 2, CellState::Alive).unwrap();
    grid.set_current(3, 2, CellState::Alive).unwrap();
    assert_eq!(grid.evaluate(&engine, &counter), Ok(()));
    // The current plane is as it was.
    assert_eq!(grid.get(1, 2), Ok(CellState::Alive));
    assert_eq!(grid.get(2, 1), Ok(CellState::Empty));
    let changes = grid.commit();
    assert_eq!(
        changes,
        vec![
            Change { x: 1, y: 2, state: CellState::Empty },
            Change { x: 2, y: 1, state: CellState::Alive },
            Change { x: 2, y: 3, state: CellState::Alive },
            Change { x: 3, y: 2, state: CellState::Empty },
        ]
    );
    assert_eq!(grid.get(2, 1), Ok(CellState::Alive));
    assert_eq!(grid.get(2, 2), Ok(CellState::Alive));
    assert_eq!(grid.get(2, 3), Ok(CellState::Alive));
    assert_eq!(grid.get(1, 2), Ok(CellState::Empty));
    assert_eq!(grid.get(3, 2), Ok(CellState::Empty));
}

#[test]
fn evaluate_twice_is_an_invariant_violation() {
    let (engine, counter) = classic();
    let mut grid = Grid::new(5, 5);
    grid.set_current(1, 2, CellState::Alive).unwrap();
    grid.set_current(2, 2, CellState::Alive).unwrap();
    grid.set_current(3, 2, CellState::Alive).unwrap();
    assert_eq!(grid.evaluate(&engine, &counter), Ok(()));
    assert_eq!(grid.evaluate(&engine, &counter), Err(GridError::InvariantViolation));
    // Nothing was changed by the failed call: the commit still brings the column.
    grid.commit();
    assert_eq!(grid.get(2, 1), Ok(CellState::Alive));
    assert_eq!(grid.get(1, 2), Ok(CellState::Empty));
    // After a commit the pending plane is empty again.
    assert_eq!(grid.evaluate(&engine, &counter), Ok(()));
}

#[test]
fn evaluate_on_all_empty_pending_with_nothing_alive_succeeds() {
    let (engine, counter) = classic();
    let mut grid = Grid::new(3, 3);
    assert_eq!(grid.evaluate(&engine, &counter), Ok(()));
    // Every pending state is empty, so a second evaluation is in order too.
    assert_eq!(grid.evaluate(&engine, &counter), Ok(()));
}

#[test]
fn step_commits_then_evaluates() {
    let (engine, counter) = classic();
    let mut grid = Grid::new(5, 5);
    grid.set_current(1, 2, CellState::Alive).unwrap();
    grid.set_current(2, 2, CellState::Alive).unwrap();
    grid.set_current(3, 2, CellState::Alive).unwrap();
    grid.evaluate(&engine, &counter).unwrap();
    // The grid is settled: each step now advances the current plane by one generation.
    let first = grid.step(&engine, &counter);
    assert_eq!(first.len(), 4);
    assert_eq!(grid.get(2, 1), Ok(CellState::Alive));
    assert_eq!(grid.get(1, 2), Ok(CellState::Empty));
    let second = grid.step(&engine, &counter);
    assert_eq!(
        second,
        vec![
            Change { x: 1, y: 2, state: CellState::Alive },
            Change { x: 2, y: 1, state: CellState::Empty },
            Change { x: 2, y: 3, state: CellState::Empty },
            Change { x: 3, y: 2, state: CellState::Alive },
        ]
    );
    assert_eq!(grid.get(1, 2), Ok(CellState::Alive));
    assert_eq!(grid.get(2, 1), Ok(CellState::Empty));
}

#[test]
fn step_reports_nothing_when_nothing_changes() {
    let (engine, counter) = classic();
    let mut grid = Grid::new(6, 6);
    assert_eq!(grid.step(&engine, &counter), vec![]);
    assert_eq!(grid.step(&engine, &counter), vec![]);
}
