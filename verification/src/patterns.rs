//! Classic patterns on the torus and how they evolve: a still life, an
//! oscillator and a spaceship.
//!
//! A pattern is a shape, a predicate on offsets `(i, j)`, stamped onto a
//! board at an anchor. Because every coordinate wraps, how a stamped shape
//! evolves does not depend on where the anchor is.

use vstd::prelude::*;
use crate::board::{
    alive_among, evolve, generations, lemma_wrap_near, neighbor, neighborhood,
    wrap, Board,
};
use crate::cell::{CellState, Variant};
use crate::grid::{lemma_steps_are_generations, GridView};

verus! {

/// The board on which the cell `(i, j)` steps away from the anchor
/// `(ax, ay)`, counted around the torus, is `Alive` when `shape(i, j)` holds
/// and `Empty` when it does not.
pub open spec fn stamp(
    width: nat,
    height: nat,
    ax: int,
    ay: int,
    shape: spec_fn(int, int) -> bool,
) -> Board {
    Board::from_fn(
        width,
        height,
        |x: int, y: int| if shape(wrap(x - ax, width), wrap(y - ay, height)) {
            CellState::Alive
        } else {
            CellState::Empty
        },
    )
}

/// The coordinate before `i` on a ring of `n`.
pub open spec fn ring_prev(i: int, n: nat) -> int {
    if i == 0 {
        n - 1
    } else {
        i - 1
    }
}

/// The coordinate after `i` on a ring of `n`.
pub open spec fn ring_next(i: int, n: nat) -> int {
    if i + 1 == n {
        0
    } else {
        i + 1
    }
}

/// 1 when the shape holds at `(i, j)`, else 0.
pub open spec fn holds(shape: spec_fn(int, int) -> bool, i: int, j: int) -> nat {
    if shape(i, j) {
        1
    } else {
        0
    }
}

/// How many of the eight neighbours of offset `(i, j)` the shape holds at.
pub open spec fn shape_count(
    shape: spec_fn(int, int) -> bool,
    width: nat,
    height: nat,
    i: int,
    j: int,
) -> nat {
    holds(shape, ring_prev(i, width), ring_prev(j, height)) + holds(shape, ring_prev(i, width), j)
        + holds(shape, ring_prev(i, width), ring_next(j, height)) + holds(
        shape,
        i,
        ring_prev(j, height),
    ) + holds(shape, i, ring_next(j, height)) + holds(
        shape,
        ring_next(i, width),
        ring_prev(j, height),
    ) + holds(shape, ring_next(i, width), j) + holds(
        shape,
        ring_next(i, width),
        ring_next(j, height),
    )
}

/// Whether offset `(i, j)` is alive one generation after `shape`.
pub open spec fn shape_next(
    shape: spec_fn(int, int) -> bool,
    width: nat,
    height: nat,
    i: int,
    j: int,
) -> bool {
    (shape(i, j) && shape_count(shape, width, height, i, j) == 2) || shape_count(
        shape,
        width,
        height,
        i,
        j,
    ) == 3
}

/// One classic generation of a stamped shape, cell by cell: the cell at
/// `(x, y)` lives on exactly when the shape's next generation holds at its
/// offset from the anchor.
proof fn lemma_stamp_cell(
    width: nat,
    height: nat,
    ax: int,
    ay: int,
    shape: spec_fn(int, int) -> bool,
    x: int,
    y: int,
)
    requires
        0 <= ax < width,
        0 <= ay < height,
        0 <= x < width,
        0 <= y < height,
    ensures
        0 <= wrap(x - ax, width) < width,
        0 <= wrap(y - ay, height) < height,
        evolve(stamp(width, height, ax, ay, shape), Variant::Classic, Variant::Classic).at(x, y)
            == if shape_next(shape, width, height, wrap(x - ax, width), wrap(y - ay, height)) {
            CellState::Alive
        } else {
            CellState::Empty
        },
{
    let board = stamp(width, height, ax, ay, shape);
    let ns = neighborhood(board, x, y);
    lemma_wrap_near(x - 1, width);
    lemma_wrap_near(x + 0, width);
    lemma_wrap_near(x + 1, width);
    lemma_wrap_near(y - 1, height);
    lemma_wrap_near(y + 0, height);
    lemma_wrap_near(y + 1, height);
    lemma_wrap_near(x - ax, width);
    lemma_wrap_near(y - ay, height);
    lemma_wrap_near(wrap(x - 1, width) - ax, width);
    lemma_wrap_near(wrap(x + 1, width) - ax, width);
    lemma_wrap_near(wrap(y - 1, height) - ay, height);
    lemma_wrap_near(wrap(y + 1, height) - ay, height);
    let i = wrap(x - ax, width);
    let j = wrap(y - ay, height);
    assert(wrap(wrap(x - 1, width) - ax, width) == ring_prev(i, width));
    assert(wrap(wrap(x + 1, width) - ax, width) == ring_next(i, width));
    assert(wrap(wrap(y - 1, height) - ay, height) == ring_prev(j, height));
    assert(wrap(wrap(y + 1, height) - ay, height) == ring_next(j, height));
    assert(ns[0] == neighbor(board, x, y, 0));
    assert(ns[1] == neighbor(board, x, y, 1));
    assert(ns[2] == neighbor(board, x, y, 2));
    assert(ns[3] == neighbor(board, x, y, 3));
    assert(ns[4] == neighbor(board, x, y, 4));
    assert(ns[5] == neighbor(board, x, y, 5));
    assert(ns[6] == neighbor(board, x, y, 6));
    assert(ns[7] == neighbor(board, x, y, 7));
    reveal_with_fuel(alive_among, 9);
    assert(alive_among(Variant::Classic, ns, 8) == shape_count(shape, width, height, i, j));
}

/// A stamped shape evolves, under the classic rules, into the stamp of any
/// shape that agrees with its next generation at every offset on the board.
pub proof fn lemma_stamp_evolves(
    width: nat,
    height: nat,
    ax: int,
    ay: int,
    shape: spec_fn(int, int) -> bool,
    next: spec_fn(int, int) -> bool,
)
    requires
        0 <= ax < width,
        0 <= ay < height,
        forall|i: int, j: int|
            0 <= i < width && 0 <= j < height ==> #[trigger] next(i, j) == shape_next(
                shape,
                width,
                height,
                i,
                j,
            ),
    ensures
        evolve(stamp(width, height, ax, ay, shape), Variant::Classic, Variant::Classic) == stamp(
            width,
            height,
            ax,
            ay,
            next,
        ),
{
    let e = evolve(stamp(width, height, ax, ay, shape), Variant::Classic, Variant::Classic);
    let s = stamp(width, height, ax, ay, next);
    assert forall|x: int, y: int| 0 <= x < width && 0 <= y < height implies #[trigger] e.cols[x][y]
        == s.cols[x][y] by {
        lemma_stamp_cell(width, height, ax, ay, shape, x, y);
        assert(e.at(x, y) == s.at(x, y));
    }
    assert(e.cols =~~= s.cols);
}

/// The 2 x 2 block.
pub open spec fn block_shape() -> spec_fn(int, int) -> bool {
    |i: int, j: int| 0 <= i <= 1 && 0 <= j <= 1
}

/// The block is a still life: its next generation is itself, and so is
/// every later one.
pub proof fn lemma_block_is_still(width: nat, height: nat, ax: int, ay: int, n: nat)
    requires
        width >= 3,
        height >= 3,
        0 <= ax < width,
        0 <= ay < height,
    ensures
        generations(
            stamp(width, height, ax, ay, block_shape()),
            Variant::Classic,
            Variant::Classic,
            n,
        ) == stamp(width, height, ax, ay, block_shape()),
    decreases n,
{
    if n > 0 {
        lemma_block_is_still(width, height, ax, ay, (n - 1) as nat);
        lemma_stamp_evolves(width, height, ax, ay, block_shape(), block_shape());
    }
}

/// The blinker lying down: three cells in a row, in the middle row of the
/// 3 x 3 box at the anchor.
pub open spec fn blinker_row() -> spec_fn(int, int) -> bool {
    |i: int, j: int| 0 <= i <= 2 && j == 1
}

/// The blinker standing up: three cells in a column, in the middle column of
/// the 3 x 3 box at the anchor.
pub open spec fn blinker_column() -> spec_fn(int, int) -> bool {
    |i: int, j: int| i == 1 && 0 <= j <= 2
}

/// The blinker oscillates with period two: after one generation the row is
/// the column about the same centre, after two it is the row again.
pub proof fn lemma_blinker_oscillates(width: nat, height: nat, ax: int, ay: int)
    requires
        width >= 4,
        height >= 4,
        0 <= ax < width,
        0 <= ay < height,
    ensures
        generations(
            stamp(width, height, ax, ay, blinker_row()),
            Variant::Classic,
            Variant::Classic,
            1,
        ) == stamp(width, height, ax, ay, blinker_column()),
        generations(
            stamp(width, height, ax, ay, blinker_row()),
            Variant::Classic,
            Variant::Classic,
            2,
        ) == stamp(width, height, ax, ay, blinker_row()),
{
    lemma_stamp_evolves(width, height, ax, ay, blinker_row(), blinker_column());
    lemma_stamp_evolves(width, height, ax, ay, blinker_column(), blinker_row());
    reveal_with_fuel(generations, 3);
}

/// The glider:
///
/// ```text
/// . # .
/// . . #
/// # # #
/// ```
///
/// with `i` to the right and `j` downwards, the top left corner at the anchor.
pub open spec fn glider_shape() -> spec_fn(int, int) -> bool {
    |i: int, j: int|
        (i == 1 && j == 0) || (i == 2 && j == 1) || (i == 0 && j == 2) || (i == 1 && j == 2) || (i
            == 2 && j == 2)
}

/// The glider one generation on.
spec fn glider_second() -> spec_fn(int, int) -> bool {
    |i: int, j: int|
        (i == 0 && j == 1) || (i == 2 && j == 1) || (i == 1 && j == 2) || (i == 2 && j == 2) || (i
            == 1 && j == 3)
}

/// The glider two generations on.
spec fn glider_third() -> spec_fn(int, int) -> bool {
    |i: int, j: int|
        (i == 2 && j == 1) || (i == 0 && j == 2) || (i == 2 && j == 2) || (i == 1 && j == 3) || (i
            == 2 && j == 3)
}

/// The glider three generations on.
spec fn glider_fourth() -> spec_fn(int, int) -> bool {
    |i: int, j: int|
        (i == 1 && j == 1) || (i == 2 && j == 2) || (i == 3 && j == 2) || (i == 1 && j == 3) || (i
            == 2 && j == 3)
}

/// The glider four generations on: its first shape, one step further along
/// both axes.
spec fn glider_moved() -> spec_fn(int, int) -> bool {
    |i: int, j: int| glider_shape()(i - 1, j - 1)
}

/// Stamping the moved glider at the anchor is stamping the glider at the
/// anchor moved one step along both axes.
proof fn lemma_glider_moved(width: nat, height: nat, ax: int, ay: int)
    requires
        width >= 5,
        height >= 5,
        0 <= ax < width,
        0 <= ay < height,
    ensures
        stamp(width, height, ax, ay, glider_moved()) == stamp(
            width,
            height,
            wrap(ax + 1, width),
            wrap(ay + 1, height),
            glider_shape(),
        ),
{
    let a = stamp(width, height, ax, ay, glider_moved());
    let b = stamp(width, height, wrap(ax + 1, width), wrap(ay + 1, height), glider_shape());
    lemma_wrap_near(ax + 1, width);
    lemma_wrap_near(ay + 1, height);
    assert forall|x: int, y: int| 0 <= x < width && 0 <= y < height implies #[trigger] a.cols[x][y]
        == b.cols[x][y] by {
        lemma_wrap_near(x - ax, width);
        lemma_wrap_near(y - ay, height);
        lemma_wrap_near(x - wrap(ax + 1, width), width);
        lemma_wrap_near(y - wrap(ay + 1, height), height);
        assert(a.at(x, y) == b.at(x, y));
    }
    assert(a.cols =~~= b.cols);
}

/// At every offset, the glider's second shape is the next generation of its
/// first.
proof fn lemma_glider_first_step(width: nat, height: nat, i: int, j: int)
    requires
        width >= 5,
        height >= 5,
        0 <= i < width,
        0 <= j < height,
    ensures
        glider_second()(i, j) == shape_next(glider_shape(), width, height, i, j),
{
}

/// At every offset, the glider's third shape is the next generation of its
/// second.
proof fn lemma_glider_second_step(width: nat, height: nat, i: int, j: int)
    requires
        width >= 5,
        height >= 5,
        0 <= i < width,
        0 <= j < height,
    ensures
        glider_third()(i, j) == shape_next(glider_second(), width, height, i, j),
{
}

/// At every offset, the glider's fourth shape is the next generation of its
/// third.
proof fn lemma_glider_third_step(width: nat, height: nat, i: int, j: int)
    requires
        width >= 5,
        height >= 5,
        0 <= i < width,
        0 <= j < height,
    ensures
        glider_fourth()(i, j) == shape_next(glider_third(), width, height, i, j),
{
}

/// At every offset, the moved glider is the next generation of the glider's
/// fourth shape.
proof fn lemma_glider_fourth_step(width: nat, height: nat, i: int, j: int)
    requires
        width >= 5,
        height >= 5,
        0 <= i < width,
        0 <= j < height,
    ensures
        glider_moved()(i, j) == shape_next(glider_fourth(), width, height, i, j),
{
}

/// The glider travels: after four generations it is the same shape, moved by
/// one cell along both axes, around the torus where it meets an edge.
pub proof fn lemma_glider_travels(width: nat, height: nat, ax: int, ay: int)
    requires
        width >= 5,
        height >= 5,
        0 <= ax < width,
        0 <= ay < height,
    ensures
        generations(
            stamp(width, height, ax, ay, glider_shape()),
            Variant::Classic,
            Variant::Classic,
            4,
        ) == stamp(width, height, wrap(ax + 1, width), wrap(ay + 1, height), glider_shape()),
{
    let first = stamp(width, height, ax, ay, glider_shape());
    let second = stamp(width, height, ax, ay, glider_second());
    let third = stamp(width, height, ax, ay, glider_third());
    let fourth = stamp(width, height, ax, ay, glider_fourth());
    let moved = stamp(width, height, ax, ay, glider_moved());
    assert(evolve(first, Variant::Classic, Variant::Classic) == second) by {
        assert forall|i: int, j: int| 0 <= i < width && 0 <= j < height implies #[trigger] glider_second()(
            i,
            j,
        ) == shape_next(glider_shape(), width, height, i, j) by {
            lemma_glider_first_step(width, height, i, j);
        }
        lemma_stamp_evolves(width, height, ax, ay, glider_shape(), glider_second());
    }
    assert(evolve(second, Variant::Classic, Variant::Classic) == third) by {
        assert forall|i: int, j: int| 0 <= i < width && 0 <= j < height implies #[trigger] glider_third()(
            i,
            j,
        ) == shape_next(glider_second(), width, height, i, j) by {
            lemma_glider_second_step(width, height, i, j);
        }
        lemma_stamp_evolves(width, height, ax, ay, glider_second(), glider_third());
    }
    assert(evolve(third, Variant::Classic, Variant::Classic) == fourth) by {
        assert forall|i: int, j: int| 0 <= i < width && 0 <= j < height implies #[trigger] glider_fourth()(
            i,
            j,
        ) == shape_next(glider_third(), width, height, i, j) by {
            lemma_glider_third_step(width, height, i, j);
        }
        lemma_stamp_evolves(width, height, ax, ay, glider_third(), glider_fourth());
    }
    assert(evolve(fourth, Variant::Classic, Variant::Classic) == moved) by {
        assert forall|i: int, j: int| 0 <= i < width && 0 <= j < height implies #[trigger] glider_moved()(
            i,
            j,
        ) == shape_next(glider_fourth(), width, height, i, j) by {
            lemma_glider_fourth_step(width, height, i, j);
        }
        lemma_stamp_evolves(width, height, ax, ay, glider_fourth(), glider_moved());
    }
    lemma_glider_moved(width, height, ax, ay);
    assert(generations(first, Variant::Classic, Variant::Classic, 4) == moved) by {
        reveal_with_fuel(generations, 5);
    }
}

/// A grid on which the block is about to be committed, as after clicking
/// its four cells on a blank grid, holds the block in both planes after any
/// number of steps from the first on.
pub proof fn lemma_block_survives_steps(g: GridView, ax: int, ay: int, n: nat)
    requires
        g.pending.width >= 3,
        g.pending.height >= 3,
        0 <= ax < g.pending.width,
        0 <= ay < g.pending.height,
        g.pending == stamp(g.pending.width, g.pending.height, ax, ay, block_shape()),
        n >= 1,
    ensures
        g.stepped_n(Variant::Classic, Variant::Classic, n).current == g.pending,
        g.stepped_n(Variant::Classic, Variant::Classic, n).pending == g.pending,
{
    let m = (n - 1) as nat;
    lemma_steps_are_generations(g, Variant::Classic, Variant::Classic, m);
    lemma_block_is_still(g.pending.width, g.pending.height, ax, ay, m);
    lemma_block_is_still(g.pending.width, g.pending.height, ax, ay, 1);
    reveal_with_fuel(generations, 2);
}

/// On a settled grid that shows the blinker lying down, one step stands it
/// up and a second step lays it down again.
pub proof fn lemma_blinker_steps(g: GridView, ax: int, ay: int)
    requires
        g.current.width >= 4,
        g.current.height >= 4,
        0 <= ax < g.current.width,
        0 <= ay < g.current.height,
        g.current == stamp(g.current.width, g.current.height, ax, ay, blinker_row()),
        g.settled(Variant::Classic, Variant::Classic),
    ensures
        g.stepped_n(Variant::Classic, Variant::Classic, 1).current == stamp(
            g.current.width,
            g.current.height,
            ax,
            ay,
            blinker_column(),
        ),
        g.stepped_n(Variant::Classic, Variant::Classic, 2).current == g.current,
{
    lemma_steps_are_generations(g, Variant::Classic, Variant::Classic, 1);
    lemma_steps_are_generations(g, Variant::Classic, Variant::Classic, 2);
    lemma_blinker_oscillates(g.current.width, g.current.height, ax, ay);
}

/// On a settled grid that shows the glider, four steps move it by one cell
/// along both axes.
pub proof fn lemma_glider_steps(g: GridView, ax: int, ay: int)
    requires
        g.current.width >= 5,
        g.current.height >= 5,
        0 <= ax < g.current.width,
        0 <= ay < g.current.height,
        g.current == stamp(g.current.width, g.current.height, ax, ay, glider_shape()),
        g.settled(Variant::Classic, Variant::Classic),
    ensures
        g.stepped_n(Variant::Classic, Variant::Classic, 4).current == stamp(
            g.current.width,
            g.current.height,
            wrap(ax + 1, g.current.width),
            wrap(ay + 1, g.current.height),
            glider_shape(),
        ),
{
    lemma_steps_are_generations(g, Variant::Classic, Variant::Classic, 4);
    lemma_glider_travels(g.current.width, g.current.height, ax, ay);
}

} // verus!
