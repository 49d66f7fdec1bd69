//! The mathematical model of one plane of cell states, and of one generation.
//!
//! Everything here is ghost code: the executable grid, neighbour counter and
//! rule engine state their contracts over these functions.

use vstd::prelude::*;
use crate::cell::{Aggregate, CellState, Change, Variant};

verus! {

/// A `width` x `height` rectangle of cell states, stored column by column:
/// the state at `(x, y)` is `cols[x][y]`.
pub struct Board {
    pub width: nat,
    pub height: nat,
    pub cols: Seq<Seq<CellState>>,
}

impl Board {
    /// Every coordinate of the rectangle has exactly one state.
    pub open spec fn wf(self) -> bool {
        &&& self.cols.len() == self.width
        &&& forall|x: int| 0 <= x < self.width ==> (#[trigger] self.cols[x]).len() == self.height
    }

    /// Whether `(x, y)` lies on the board.
    pub open spec fn contains(self, x: int, y: int) -> bool {
        0 <= x < self.width && 0 <= y < self.height
    }

    /// The state at `(x, y)`.
    pub open spec fn at(self, x: int, y: int) -> CellState {
        self.cols[x][y]
    }

    /// The board whose state at `(x, y)` is `f(x, y)`.
    pub open spec fn from_fn(width: nat, height: nat, f: spec_fn(int, int) -> CellState) -> Board {
        Board {
            width,
            height,
            cols: Seq::new(width, |x: int| Seq::new(height, |y: int| f(x, y))),
        }
    }

    /// The board with every cell empty.
    pub open spec fn empty(width: nat, height: nat) -> Board {
        Board::from_fn(width, height, |x: int, y: int| CellState::Empty)
    }

    /// This board with the state at `(x, y)` replaced by `state`.
    pub open spec fn with(self, x: int, y: int, state: CellState) -> Board {
        Board { cols: self.cols.update(x, self.cols[x].update(y, state)), ..self }
    }

    /// Whether every cell is empty.
    pub open spec fn all_empty(self) -> bool {
        forall|x: int, y: int| self.contains(x, y) ==> #[trigger] self.at(x, y) == CellState::Empty
    }
}

/// The `k`-th of the eight neighbour offsets `(dx, dy)`, in scan order:
/// `(-1,-1), (-1,0), (-1,1), (0,-1), (0,1), (1,-1), (1,0), (1,1)`.
pub open spec fn offset(k: int) -> (int, int) {
    if k == 0 {
        (-1, -1)
    } else if k == 1 {
        (-1, 0)
    } else if k == 2 {
        (-1, 1)
    } else if k == 3 {
        (0, -1)
    } else if k == 4 {
        (0, 1)
    } else if k == 5 {
        (1, -1)
    } else if k == 6 {
        (1, 0)
    } else {
        (1, 1)
    }
}

/// The coordinate `i` moved onto `0..n` around the torus.
pub open spec fn wrap(i: int, n: nat) -> int {
    i % (n as int)
}

/// The state of the `k`-th neighbour of `(x, y)`; coordinates wrap at the edges.
pub open spec fn neighbor(board: Board, x: int, y: int, k: int) -> CellState {
    board.at(wrap(x + offset(k).0, board.width), wrap(y + offset(k).1, board.height))
}

/// The states of the eight neighbours of `(x, y)`, in scan order.
pub open spec fn neighborhood(board: Board, x: int, y: int) -> Seq<CellState> {
    Seq::new(8, |k: int| neighbor(board, x, y, k))
}

/// Whether a neighbour in state `s` counts as alive under `variant`.
pub open spec fn counts(variant: Variant, s: CellState) -> bool {
    match variant {
        Variant::Classic => s == CellState::Alive,
        Variant::Team => s != CellState::Empty,
    }
}

/// How many of the first `n` states of `ns` count as alive.
pub open spec fn alive_among(variant: Variant, ns: Seq<CellState>, n: nat) -> nat
    decreases n,
{
    if n == 0 {
        0
    } else {
        alive_among(variant, ns, (n - 1) as nat) + if counts(variant, ns[n - 1]) {
            1nat
        } else {
            0nat
        }
    }
}

/// Whether none of the first `n` states of `ns` counts as alive.
pub open spec fn none_alive(variant: Variant, ns: Seq<CellState>, n: nat) -> bool {
    forall|i: int| 0 <= i < n ==> !counts(variant, #[trigger] ns[i])
}

/// Whether each of the first `n` states of `ns` that counts as alive is `t`.
pub open spec fn unanimous(variant: Variant, ns: Seq<CellState>, n: nat, t: CellState) -> bool {
    forall|i: int| 0 <= i < n && counts(variant, #[trigger] ns[i]) ==> ns[i] == t
}

/// The owner that the first `n` states of `ns` vote for: `Empty` when none of
/// them counts as alive, their common state when all that count agree, and
/// `Neutral` as soon as two of them differ.
pub open spec fn vote_among(variant: Variant, ns: Seq<CellState>, n: nat) -> CellState {
    if none_alive(variant, ns, n) {
        CellState::Empty
    } else {
        let t = ns[choose|i: int| 0 <= i < n && counts(variant, #[trigger] ns[i])];
        if unanimous(variant, ns, n, t) {
            t
        } else {
            CellState::Neutral
        }
    }
}

/// Extending a vote by one more neighbour: a neighbour that does not count
/// leaves the vote as it is; the first one that counts seeds it; a later one
/// keeps it when it agrees and turns it `Neutral` when it differs.
pub proof fn lemma_vote_extend(variant: Variant, ns: Seq<CellState>, n: nat)
    requires
        n < ns.len(),
    ensures
        vote_among(variant, ns, n) == CellState::Empty <==> none_alive(variant, ns, n),
        vote_among(variant, ns, n + 1) == if !counts(variant, ns[n as int]) {
            vote_among(variant, ns, n)
        } else if none_alive(variant, ns, n) {
            ns[n as int]
        } else if vote_among(variant, ns, n) == ns[n as int] {
            ns[n as int]
        } else {
            CellState::Neutral
        },
{
    let s = ns[n as int];
    let m = n + 1;
    if !none_alive(variant, ns, n) {
        let c = choose|i: int| 0 <= i < n && counts(variant, #[trigger] ns[i]);
        let t = ns[c];
        assert(counts(variant, t));
        if counts(variant, s) {
            assert(counts(variant, ns[n as int]));
            assert(!none_alive(variant, ns, m));
            let c2 = choose|i: int| 0 <= i < m && counts(variant, #[trigger] ns[i]);
            let t2 = ns[c2];
            if unanimous(variant, ns, n, t) {
                if s == t {
                    assert(t2 == t);
                    assert(unanimous(variant, ns, m, t2));
                } else {
                    assert(!(ns[c] == t2 && ns[n as int] == t2));
                    assert(!unanimous(variant, ns, m, t2));
                }
            } else {
                if unanimous(variant, ns, m, t2) {
                    assert(ns[c] == t2);
                    assert(unanimous(variant, ns, n, t));
                }
            }
        } else {
            assert(!none_alive(variant, ns, m)) by {
                assert(counts(variant, ns[c]));
            }
            let c2 = choose|i: int| 0 <= i < m && counts(variant, #[trigger] ns[i]);
            let t2 = ns[c2];
            assert(c2 < n);
            if unanimous(variant, ns, n, t) {
                assert(t2 == t);
                assert(unanimous(variant, ns, m, t2));
            } else {
                if unanimous(variant, ns, m, t2) {
                    assert(ns[c] == t2);
                    assert(unanimous(variant, ns, n, t));
                }
            }
        }
    } else {
        if counts(variant, s) {
            assert(counts(variant, ns[n as int]));
            assert(!none_alive(variant, ns, m));
            let c2 = choose|i: int| 0 <= i < m && counts(variant, #[trigger] ns[i]);
            assert(c2 == n);
            assert(unanimous(variant, ns, m, s));
        } else {
            assert(none_alive(variant, ns, m));
        }
    }
}

/// The wrapped coordinate at most one lap away from `0..n`.
pub proof fn lemma_wrap_near(i: int, n: nat)
    requires
        n > 0,
        -n <= i < 2 * n,
    ensures
        wrap(i, n) == if i < 0 {
            i + n
        } else if i >= n {
            i - n
        } else {
            i
        },
{
    let m = n as int;
    if i < 0 {
        vstd::arithmetic::div_mod::lemma_fundamental_div_mod_converse_mod(i, m, -1, i + m);
    } else if i >= n {
        vstd::arithmetic::div_mod::lemma_fundamental_div_mod_converse_mod(i, m, 1, i - m);
    } else {
        vstd::arithmetic::div_mod::lemma_fundamental_div_mod_converse_mod(i, m, 0, i);
    }
}

/// The aggregate of a sequence of neighbour states.
pub open spec fn aggregate_of(variant: Variant, ns: Seq<CellState>) -> Aggregate {
    Aggregate {
        alive_count: alive_among(variant, ns, ns.len()) as u8,
        team_vote: vote_among(variant, ns, ns.len()),
    }
}

/// Whether a cell in state `current` with `alive_count` live neighbours is
/// alive in the next generation: survival on two, birth or survival on three.
pub open spec fn lives(variant: Variant, current: CellState, alive_count: int) -> bool {
    (counts(variant, current) && alive_count == 2) || alive_count == 3
}

/// The next state of a cell in state `current` whose neighbours aggregate to `agg`.
pub open spec fn next_state(variant: Variant, current: CellState, agg: Aggregate) -> CellState {
    if lives(variant, current, agg.alive_count as int) {
        match variant {
            Variant::Classic => CellState::Alive,
            Variant::Team => agg.team_vote,
        }
    } else {
        CellState::Empty
    }
}

/// The next state of the cell at `(x, y)`: neighbours are counted as
/// `counting` says, the transition is that of `rule`.
pub open spec fn evolve_at(board: Board, rule: Variant, counting: Variant, x: int, y: int) -> CellState {
    next_state(rule, board.at(x, y), aggregate_of(counting, neighborhood(board, x, y)))
}

/// The next generation of `board`. Every cell is computed from `board` alone,
/// so the result does not depend on any order of evaluation.
pub open spec fn evolve(board: Board, rule: Variant, counting: Variant) -> Board {
    Board::from_fn(board.width, board.height, |x: int, y: int| evolve_at(board, rule, counting, x, y))
}

/// The board `n` generations after `board`.
pub open spec fn generations(board: Board, rule: Variant, counting: Variant, n: nat) -> Board
    decreases n,
{
    if n == 0 {
        board
    } else {
        evolve(generations(board, rule, counting, (n - 1) as nat), rule, counting)
    }
}

/// Evolving first and then letting `n` generations pass is letting `n`
/// generations pass and then evolving.
pub proof fn lemma_generations_shift(board: Board, rule: Variant, counting: Variant, n: nat)
    ensures
        generations(evolve(board, rule, counting), rule, counting, n) == generations(
            board,
            rule,
            counting,
            n + 1,
        ),
    decreases n,
{
    reveal_with_fuel(generations, 2);
    if n > 0 {
        lemma_generations_shift(board, rule, counting, (n - 1) as nat);
        assert(generations(board, rule, counting, n + 1) == evolve(
            generations(board, rule, counting, n),
            rule,
            counting,
        ));
    }
}

/// How a cell with exactly three live neighbours resolves under the team
/// rules, `ns[i]` being one of the three: it takes their state when all
/// three agree, and becomes `Neutral` when they do not, whichever of them
/// came first.
pub proof fn lemma_three_neighbors_resolve(current: CellState, ns: Seq<CellState>, i: int)
    requires
        ns.len() == 8,
        alive_among(Variant::Team, ns, 8) == 3,
        0 <= i < 8,
        counts(Variant::Team, ns[i]),
    ensures
        next_state(Variant::Team, current, aggregate_of(Variant::Team, ns)) == if unanimous(
            Variant::Team,
            ns,
            8,
            ns[i],
        ) {
            ns[i]
        } else {
            CellState::Neutral
        },
{
    assert(!none_alive(Variant::Team, ns, 8));
    let c = choose|k: int| 0 <= k < 8 && counts(Variant::Team, #[trigger] ns[k]);
    if unanimous(Variant::Team, ns, 8, ns[i]) {
        assert(ns[c] == ns[i]);
    } else {
        if unanimous(Variant::Team, ns, 8, ns[c]) {
            assert(ns[i] == ns[c]);
        }
    }
}

/// The changes from `before` to `after` among the first `n` cells of column
/// `x`, from `y == 0` upwards: one entry, carrying the new state, for each
/// cell whose state differs.
pub open spec fn column_changes(before: Board, after: Board, x: int, n: nat) -> Seq<Change>
    decreases n,
{
    if n == 0 {
        Seq::empty()
    } else {
        let rest = column_changes(before, after, x, (n - 1) as nat);
        let y = n - 1;
        if before.at(x, y) != after.at(x, y) {
            rest.push(Change { x: x as usize, y: y as usize, state: after.at(x, y) })
        } else {
            rest
        }
    }
}

/// The changes from `before` to `after` in the first `m` columns, column
/// after column.
pub open spec fn changes_upto(before: Board, after: Board, m: nat) -> Seq<Change>
    decreases m,
{
    if m == 0 {
        Seq::empty()
    } else {
        changes_upto(before, after, (m - 1) as nat) + column_changes(
            before,
            after,
            m - 1,
            after.height,
        )
    }
}

/// The cells whose state in `after` differs from that in `before`, each once
/// and with its new state, ordered by `x` and then by `y`.
pub open spec fn changes_between(before: Board, after: Board) -> Seq<Change> {
    changes_upto(before, after, after.width)
}

} // verus!
