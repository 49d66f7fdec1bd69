use conway::cell::{CellState, Variant};
use conway::grid::Grid;
use conway::input::InputMapper;
use conway::neighbors::NeighborCounter;
use conway::rules::RuleEngine;

const BLOCK: [(usize, usize); 4] = [(0, 0), (1, 0), (0, 1), (1, 1)];
const ROW: [(usize, usize); 3] = [(0, 1), (1, 1), (2, 1)];
const COLUMN: [(usize, usize); 3] = [(1, 0), (1, 1), (1, 2)];
const GLIDER: [(usize, usize); 5] = [(1, 0), (2, 1), (0, 2), (1, 2), (2, 2)];

fn classic() -> (RuleEngine, NeighborCounter) {
    (RuleEngine::new(Variant::Classic), NeighborCounter::new(Variant::Classic))
}

// The cells of `shape` drawn from the anchor, wrapped, in scan order.
fn stamped(shape: &[(usize, usize)], ax: usize, ay: usize, w: usize, h: usize) -> Vec<(usize, usize)> {
    let mut cells: Vec<(usize, usize)> =
        shape.iter().map(|&(i, j)| ((ax + i) % w, (ay + j) % h)).collect();
    cells.sort();
    cells
}

// The live cells of the current plane, in scan order.
fn live(grid: &Grid) -> Vec<(usize, usize)> {
    let mut cells = Vec::new();
    for x in 0..grid.width() {
        for y in 0..grid.height() {
            match grid.get(x, y).unwrap() {
                CellState::Alive => cells.push((x, y)),
                CellState::Empty => {}
                other => panic!("unexpected state {:?} at ({}, {})", other, x, y),
            }
        }
    }
    cells
}

// A grid showing `shape` whose pending plane is already evaluated, as a
// step leaves it.
fn settled(shape: &[(usize, usize)], ax: usize, ay: usize, w: usize, h: usize) -> Grid {
    let (engine, counter) = classic();
    let mut grid = Grid::new(w, h);
    for (x, y) in stamped(shape, ax, ay, w, h) {
        grid.set_current(x, y, CellState::Alive).unwrap();
    }
    grid.evaluate(&engine, &counter).unwrap();
    grid
}

// A grid on which the cells of `shape` were clicked.
fn clicked(shape: &[(usize, usize)], ax: usize, ay: usize, w: usize, h: usize) -> Grid {
    let mapper = InputMapper::new(16, Variant::Classic);
    let mut grid = Grid::new(w, h);
    for (x, y) in stamped(shape, ax, ay, w, h) {
        mapper.apply(&mut grid, x, y, false).unwrap();
    }
    grid
}

#[test]
fn stable_still_life() {
    let (engine, counter) = classic();
    let mut grid = clicked(&BLOCK, 2, 2, 6, 6);
    let block = stamped(&BLOCK, 2, 2, 6, 6);
    assert_eq!(live(&grid), block);
    for _ in 0..20 {
        assert_eq!(grid.step(&engine, &counter), vec![]);
        assert_eq!(live(&grid), block);
    }
}

#[test]
fn still_life_across_the_corner() {
    let (engine, counter) = classic();
    let mut grid = clicked(&BLOCK, 5, 5, 6, 6);
    let block = vec![(0, 0), (0, 5), (5, 0), (5, 5)];
    assert_eq!(live(&grid), block);
    for _ in 0..8 {
        grid.step(&engine, &counter);
        assert_eq!(live(&grid), block);
    }
}

#[test]
fn still_life_on_the_smallest_torus() {
    let (engine, counter) = classic();
    let mut grid = settled(&BLOCK, 1, 2, 3, 3);
    let block = stamped(&BLOCK, 1, 2, 3, 3);
    for _ in 0..5 {
        grid.step(&engine, &counter);
        assert_eq!(live(&grid), block);
    }
}

#[test]
fn block_on_a_torus_two_wide_is_not_stable() {
    let (engine, counter) = classic();
    let mut grid = settled(&BLOCK, 0, 1, 2, 6);
    grid.step(&engine, &counter);
    assert_ne!(live(&grid), stamped(&BLOCK, 0, 1, 2, 6));
}

#[test]
fn oscillator() {
    let (engine, counter) = classic();
    let mut grid = settled(&ROW, 1, 1, 6, 6);
    assert_eq!(live(&grid), vec![(1, 2), (2, 2), (3, 2)]);
    grid.step(&engine, &counter);
    assert_eq!(live(&grid), vec![(2, 1), (2, 2), (2, 3)]);
    assert_eq!(live(&grid), stamped(&COLUMN, 1, 1, 6, 6));
    grid.step(&engine, &counter);
    assert_eq!(live(&grid), vec![(1, 2), (2, 2), (3, 2)]);
}

#[test]
fn oscillator_across_the_edges() {
    let (engine, counter) = classic();
    let mut grid = settled(&ROW, 3, 3, 4, 4);
    let row = stamped(&ROW, 3, 3, 4, 4);
    let column = stamped(&COLUMN, 3, 3, 4, 4);
    assert_eq!(row, vec![(0, 0), (1, 0), (3, 0)]);
    for _ in 0..3 {
        grid.step(&engine, &counter);
        assert_eq!(live(&grid), column);
        grid.step(&engine, &counter);
        assert_eq!(live(&grid), row);
    }
}

#[test]
fn oscillator_from_clicks_starts_with_the_commit() {
    // Clicked cells sit in both planes: the first step commits them as they
    // are, and from then on every step is one generation.
    let (engine, counter) = classic();
    let mut grid = clicked(&ROW, 1, 1, 6, 6);
    let row = stamped(&ROW, 1, 1, 6, 6);
    let column = stamped(&COLUMN, 1, 1, 6, 6);
    grid.step(&engine, &counter);
    assert_eq!(live(&grid), row);
    grid.step(&engine, &counter);
    assert_eq!(live(&grid), column);
    grid.step(&engine, &counter);
    assert_eq!(live(&grid), row);
}

#[test]
fn glider_translation() {
    let (engine, counter) = classic();
    let mut grid = settled(&GLIDER, 1, 1, 8, 8);
    for _ in 0..4 {
        grid.step(&engine, &counter);
    }
    assert_eq!(live(&grid), stamped(&GLIDER, 2, 2, 8, 8));
    assert_eq!(live(&grid), vec![(2, 4), (3, 2), (3, 4), (4, 3), (4, 4)]);
}

#[test]
fn glider_phases() {
    let (engine, counter) = classic();
    let mut grid = settled(&GLIDER, 0, 0, 8, 8);
    grid.step(&engine, &counter);
    assert_eq!(live(&grid), vec![(0, 1), (1, 2), (1, 3), (2, 1), (2, 2)]);
    grid.step(&engine, &counter);
    assert_eq!(live(&grid), vec![(0, 2), (1, 3), (2, 1), (2, 2), (2, 3)]);
    grid.step(&engine, &counter);
    assert_eq!(live(&grid), vec![(1, 1), (1, 3), (2, 2), (2, 3), (3, 2)]);
    grid.step(&engine, &counter);
    assert_eq!(live(&grid), vec![(1, 3), (2, 1), (2, 3), (3, 2), (3, 3)]);
}

#[test]
fn glider_translation_wraps_at_the_edges() {
    let (engine, counter) = classic();
    let mut grid = settled(&GLIDER, 6, 6, 8, 8);
    for _ in 0..4 {
        grid.step(&engine, &counter);
    }
    assert_eq!(live(&grid), stamped(&GLIDER, 7, 7, 8, 8));
    for _ in 0..4 {
        grid.step(&engine, &counter);
    }
    assert_eq!(live(&grid), stamped(&GLIDER, 0, 0, 8, 8));
}

#[test]
fn glider_goes_round_the_smallest_torus() {
    let (engine, counter) = classic();
    let mut grid = settled(&GLIDER, 3, 4, 5, 5);
    // Five moves of (1, 1) bring it back to where it started.
    for k in 1..=5 {
        for _ in 0..4 {
            grid.step(&engine, &counter);
        }
        assert_eq!(live(&grid), stamped(&GLIDER, 3 + k, 4 + k, 5, 5));
    }
    assert_eq!(live(&grid), stamped(&GLIDER, 3, 4, 5, 5));
}

#[test]
fn team_game_with_one_team_plays_like_classic() {
    let engine = RuleEngine::new(Variant::Team);
    let counter = NeighborCounter::new(Variant::Team);
    let mut grid = Grid::new(6, 6);
    for (x, y) in stamped(&ROW, 1, 1, 6, 6) {
        grid.set_current(x, y, CellState::Team(2)).unwrap();
    }
    grid.evaluate(&engine, &counter).unwrap();
    grid.step(&engine, &counter);
    for x in 0..6 {
        for y in 0..6 {
            let want = if x == 2 && (1..=3).contains(&y) { CellState::Team(2) } else { CellState::Empty };
            assert_eq!(grid.get(x, y), Ok(want));
        }
    }
}

#[test]
fn team_game_contested_birth_is_neutral() {
    let engine = RuleEngine::new(Variant::Team);
    let counter = NeighborCounter::new(Variant::Team);
    let mut grid = Grid::new(6, 6);
    grid.set_current(1, 2, CellState::Team(1)).unwrap();
    grid.set_current(2, 2, CellState::Team(1)).unwrap();
    grid.set_current(3, 2, CellState::Team(2)).unwrap();
    grid.evaluate(&engine, &counter).unwrap();
    grid.step(&engine, &counter);
    // Both cells born above and below the row see two teams.
    assert_eq!(grid.get(2, 1), Ok(CellState::Neutral));
    assert_eq!(grid.get(2, 3), Ok(CellState::Neutral));
    // The survivor in the middle has two neighbours of different teams.
    assert_eq!(grid.get(2, 2), Ok(CellState::Neutral));
    assert_eq!(grid.get(1, 2), Ok(CellState::Empty));
    assert_eq!(grid.get(3, 2), Ok(CellState::Empty));
}
