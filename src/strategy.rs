//! A searcher with its own game-over penalty, whose depth shrinks as the board empties.
use crate::board::{empty_cells, Board, Direction};
use crate::evaluators::{BoardEvaluator, BOARD_SCORE_LIMIT};
use crate::solver::{best_move, Solver, SolverBuilder, PROBA_SCALE};
use vstd::prelude::*;

verus! {

/// An evaluator with its game-over penalty replaced.
pub struct PenaltyOverride<E: BoardEvaluator> {
    pub evaluator: E,
    pub gameover_penalty: i64,
}

impl<E: BoardEvaluator> BoardEvaluator for PenaltyOverride<E> {
    open spec fn evaluator_ok(&self) -> bool {
        &&& self.evaluator.evaluator_ok()
        &&& -BOARD_SCORE_LIMIT <= self.gameover_penalty <= BOARD_SCORE_LIMIT
    }

    open spec fn board_score(&self, board: Board) -> int {
        self.evaluator.board_score(board)
    }

    open spec fn penalty_score(&self) -> int {
        self.gameover_penalty as int
    }

    fn evaluate(&self, board: Board) -> (r: i64) {
        self.evaluator.evaluate(board)
    }

    fn gameover_penalty(&self) -> (r: i64) {
        self.gameover_penalty
    }
}

/// The search depth of a `Strategy` on `b`: `max_depth` scaled by the share of the 15
/// cells a board can leave empty that are filled, rounded down.
pub open spec fn strategy_depth(max_depth: nat, b: Board) -> nat {
    let empty = empty_cells(b@).len();
    if empty >= 15 {
        0
    } else {
        ((15 - empty) * max_depth / 15) as nat
    }
}

/// `max_depth` scaled by the share of the 15 cells a board can leave empty that are
/// filled, rounded down.
fn scaled_depth(empty: usize, max_depth: usize) -> (r: usize)
    ensures
        r == (if empty >= 15 {
            0
        } else {
            (15 - empty) * max_depth / 15
        }),
{
    if empty >= 15 {
        0
    } else {
        let f: u128 = (15 - empty) as u128;
        let m: u128 = max_depth as u128;
        proof {
            assert(0 <= f * m <= 15 * m && f * m / 15 <= m) by (nonlinear_arith)
                requires
                    0 < f <= 15,
                    0 <= m,
            ;
        }
        (f * m / 15) as usize
    }
}

/// Expectiminimax searcher whose depth grows as the board fills up. It runs the search of
/// `Solver`: chance values are memoised by board, depth and branch probability, and a
/// branch probability is split among the empty cells.
pub struct Strategy<E: BoardEvaluator> {
    solver: Solver<PenaltyOverride<E>>,
    max_search_depth: usize,
}

impl<E: BoardEvaluator> Strategy<E> {
    /// The configuration is valid.
    pub closed spec fn inv(&self) -> bool {
        self.solver.inv()
    }

    /// The move `next_best_move` picks on `board`.
    pub closed spec fn spec_next_best_move(&self, board: Board) -> Option<Direction> {
        best_move(
            self.solver.evaluator(),
            self.solver.proba_4(),
            self.solver.min_branch_proba(),
            board,
            strategy_depth(self.max_search_depth as nat, board),
        )
    }

    /// The searcher with `evaluator` at the leaves, `gameover_penalty` for dead ends, and
    /// probabilities in millionths.
    pub fn new(
        evaluator: E,
        proba_4: u64,
        max_search_depth: usize,
        gameover_penalty: i64,
        min_branch_proba: u64,
    ) -> (r: Self)
        requires
            evaluator.evaluator_ok(),
            proba_4 <= PROBA_SCALE,
            -BOARD_SCORE_LIMIT <= gameover_penalty <= BOARD_SCORE_LIMIT,
        ensures
            r.inv(),
            forall|b: Board|
                #[trigger] r.spec_next_best_move(b) == best_move(
                    PenaltyOverride { evaluator, gameover_penalty },
                    proba_4 as nat,
                    min_branch_proba as nat,
                    b,
                    strategy_depth(max_search_depth as nat, b),
                ),
    {
        let builder = SolverBuilder {
            board_evaluator: PenaltyOverride { evaluator, gameover_penalty },
            proba_4,
            base_max_search_depth: max_search_depth,
            min_branch_proba,
        };
        Strategy { solver: builder.build(), max_search_depth }
    }

    /// Returns the best move on `board`, or `None` when no move changes it.
    pub fn next_best_move(&mut self, board: Board) -> (r: Option<Direction>)
        requires
            old(self).inv(),
        ensures
            final(self).inv(),
            r == old(self).spec_next_best_move(board),
            forall|b: Board| #[trigger] final(self).spec_next_best_move(b) == old(
                self,
            ).spec_next_best_move(b),
    {
        let depth = scaled_depth(board.count_empty_tiles(), self.max_search_depth);
        self.solver.search(board, depth)
    }
}

} // verus!
