//! Expectiminimax search: the player picks the move of best expected score, nature fills
//! one empty cell with a 2 or a 4.
use crate::board::{
    distinct_tiles, empty_cells, is_stuck, lemma_stuck_board_unmoved, lemma_empties_bounded, max_exponent_upto, moved_board,
    with_cell, Board, Direction, MoveTables,
};
use crate::evaluators::{
    BoardEvaluator, MonotonicityEvaluator, PrecomputedBoardEvaluator, BOARD_SCORE_LIMIT,
};
use crate::utils::tile_value;
use fnv::FnvHashMap;
use vstd::arithmetic::div_mod::{
    lemma_div_is_ordered, lemma_div_multiples_vanish, lemma_hoist_over_denominator,
};
use vstd::prelude::*;

verus! {

/// Probabilities are integers in millionths: `PROBA_SCALE` stands for certainty.
pub const PROBA_SCALE: u64 = 1_000_000;

/// fnv's hasher, named by the type of the transposition table (opaque here).
#[verifier::external_type_specification]
#[verifier::external_body]
pub struct ExFnvHasher(fnv::FnvHasher);

/// std's builder of default hashers, through which fnv's map type names its hasher
/// (opaque here).
#[verifier::external_type_specification]
#[verifier::external_body]
#[verifier::reject_recursive_types(H)]
pub struct ExBuildHasherDefault<H>(std::hash::BuildHasherDefault<H>);

/// A chance value kept in the transposition table, with the depth and branch probability
/// it was computed at.
#[derive(Clone, Copy, Debug)]
pub struct CachedValue {
    pub value: i64,
    pub depth: usize,
    pub branch_proba: u64,
}

/// Chance values by packed board.
pub type TranspositionTable = FnvHashMap<u64, CachedValue>;

/// Relies on `FnvHashMap::default` (std's `HashMap::default` under fnv's hasher): the new map
/// is empty.
#[verifier::external_body]
fn new_table() -> (r: TranspositionTable)
    ensures
        r@.dom() == Set::<u64>::empty(),
{
    FnvHashMap::default()
}

/// Relies on `HashMap::get` under fnv's hasher: the value stored under `key`, if any.
#[verifier::external_body]
fn table_get(t: &TranspositionTable, key: u64) -> (r: Option<CachedValue>)
    ensures
        r == (if t@.contains_key(key) {
            Some(t@[key])
        } else {
            None
        }),
{
    t.get(&key).copied()
}

/// Relies on `HashMap::insert` under fnv's hasher: `key` now maps to `value`, other keys
/// keep theirs.
#[verifier::external_body]
fn table_insert(t: &mut TranspositionTable, key: u64, value: CachedValue)
    ensures
        final(t)@ == old(t)@.insert(key, value),
{
    t.insert(key, value);
}

/// The better of `best` and the value `v` of direction `d`; on a tie, `best`, which comes
/// first.
pub open spec fn pick(best: Option<(Direction, int)>, d: Direction, v: Option<int>) -> Option<
    (Direction, int),
> {
    match v {
        None => best,
        Some(x) => match best {
            None => Some((d, x)),
            Some(b) => if x > b.1 {
                Some((d, x))
            } else {
                best
            },
        },
    }
}

/// MAX node: the best direction that changes `b` and its chance value, or `None` when no
/// move changes the board.
pub open spec fn max_node<E: BoardEvaluator>(
    e: E,
    p4: nat,
    min_bp: nat,
    b: Board,
    depth: nat,
    bp: nat,
) -> Option<(Direction, int)>
    decreases depth, 3nat, 0nat,
{
    best_of(
        e,
        p4,
        min_bp,
        b,
        depth,
        bp,
        seq![Direction::Left, Direction::Right, Direction::Up, Direction::Down],
    )
}

/// The best of the directions `dirs`, tried in order.
pub open spec fn best_of<E: BoardEvaluator>(
    e: E,
    p4: nat,
    min_bp: nat,
    b: Board,
    depth: nat,
    bp: nat,
    dirs: Seq<Direction>,
) -> Option<(Direction, int)>
    decreases depth, 2nat, dirs.len(),
{
    if dirs.len() == 0 {
        None
    } else {
        let d = dirs.last();
        let nb = moved_board(b, d);
        pick(
            best_of(e, p4, min_bp, b, depth, bp, dirs.drop_last()),
            d,
            if nb != b {
                Some(chance_value(e, p4, min_bp, nb, depth, bp))
            } else {
                None
            },
        )
    }
}

/// CHANCE node: the evaluator's score at the horizon, below the minimum branch probability
/// or on a full board; else the average over every empty cell, and a 2 (probability
/// `1 - p4`) or a 4 (probability `p4`) placed there, of the value of the MAX node that
/// follows, rounded down.
pub open spec fn chance_value<E: BoardEvaluator>(
    e: E,
    p4: nat,
    min_bp: nat,
    b: Board,
    depth: nat,
    bp: nat,
) -> int
    decreases depth, 1nat, 0nat,
{
    let cells = empty_cells(b@);
    if depth == 0 || bp < min_bp || cells.len() == 0 {
        e.board_score(b)
    } else {
        chance_sum(e, p4, min_bp, b, depth, bp, cells) / (cells.len() * PROBA_SCALE) as int
    }
}

/// The value of a MAX node reached by a spawn: the game-over penalty where no move is left.
pub open spec fn spawn_value<E: BoardEvaluator>(e: E, m: Option<(Direction, int)>) -> int {
    match m {
        Some(x) => x.1,
        None => e.penalty_score(),
    }
}

/// The sum, over the empty cells `cells` of `b`, of the spawn values weighted by the
/// probabilities of a 2 and of a 4.
pub open spec fn chance_sum<E: BoardEvaluator>(
    e: E,
    p4: nat,
    min_bp: nat,
    b: Board,
    depth: nat,
    bp: nat,
    cells: Seq<nat>,
) -> int
    decreases depth, 0nat, cells.len(),
{
    if depth == 0 || cells.len() == 0 {
        0
    } else {
        let n = empty_cells(b@).len();
        let i = cells.last();
        let p2 = (PROBA_SCALE - p4) as nat;
        let v2 = spawn_value(
            e,
            max_node(
                e,
                p4,
                min_bp,
                with_cell(b, i as u8, 1),
                (depth - 1) as nat,
                (bp as int * p2 as int / (n * PROBA_SCALE) as int) as nat,
            ),
        );
        let v4 = spawn_value(
            e,
            max_node(
                e,
                p4,
                min_bp,
                with_cell(b, i as u8, 2),
                (depth - 1) as nat,
                (bp as int * p4 as int / (n * PROBA_SCALE) as int) as nat,
            ),
        );
        chance_sum(e, p4, min_bp, b, depth, bp, cells.drop_last()) + p2 * v2 + p4 * v4
    }
}

/// The extra depth granted by a board: its number of distinct tiles, less a step that
/// shrinks as the largest tile grows.
pub open spec fn depth_adjustment(max_value: nat) -> int {
    if max_value == 2048 {
        5
    } else if max_value == 4096 || max_value == 8192 {
        3
    } else if max_value == 16384 {
        2
    } else if max_value == 32768 {
        1
    } else {
        7
    }
}

/// The search depth for `b`: the base depth, or more on a board with many distinct tiles.
pub open spec fn search_depth(base: nat, b: Board) -> nat {
    let d = distinct_tiles(b@) - depth_adjustment(tile_value(max_exponent_upto(b@, 16)));
    if d > base {
        d as nat
    } else {
        base
    }
}

/// The move the search picks on `b` at `depth`.
pub open spec fn best_move<E: BoardEvaluator>(
    e: E,
    p4: nat,
    min_bp: nat,
    b: Board,
    depth: nat,
) -> Option<Direction> {
    match max_node(e, p4, min_bp, b, depth, PROBA_SCALE as nat) {
        Some(x) => Some(x.0),
        None => None,
    }
}

/// A search result with its score as an integer.
pub open spec fn widen(r: Option<(Direction, i64)>) -> Option<(Direction, int)> {
    match r {
        Some(x) => Some((x.0, x.1 as int)),
        None => None,
    }
}

/// `sum / denom`, rounded down.
fn floor_div(sum: i128, denom: u64) -> (r: i64)
    requires
        0 < denom <= 16 * PROBA_SCALE,
        -(BOARD_SCORE_LIMIT * denom) <= sum <= BOARD_SCORE_LIMIT * denom,
    ensures
        r == sum as int / denom as int,
        -BOARD_SCORE_LIMIT <= r <= BOARD_SCORE_LIMIT,
{
    let limit: i128 = BOARD_SCORE_LIMIT as i128;
    proof {
        assert(0 <= limit * denom <= limit * (16 * PROBA_SCALE)) by (nonlinear_arith)
            requires
                0 < denom <= 16 * PROBA_SCALE,
                limit == BOARD_SCORE_LIMIT,
        ;
    }
    let shifted: i128 = sum + limit * (denom as i128);
    let q: u128 = (shifted as u128) / (denom as u128);
    proof {
        let d = denom as int;
        let l = BOARD_SCORE_LIMIT as int;
        assert(0 <= l * d <= l * (16 * PROBA_SCALE) && d * (2 * l) == 2 * (l * d)) by (nonlinear_arith)
            requires
                0 < d <= 16 * PROBA_SCALE,
                l == BOARD_SCORE_LIMIT,
        ;
        lemma_hoist_over_denominator(sum as int, l, denom as nat);
        lemma_div_is_ordered(0, shifted as int, d);
        lemma_div_is_ordered(shifted as int, d * (2 * l), d);
        lemma_div_multiples_vanish(2 * l, d);
        assert(0int / d == 0);
    }
    (q as i128 - limit) as i64
}

/// Searches for the best move with expectiminimax, memoising chance values by board.
pub struct Solver<E: BoardEvaluator> {
    board_evaluator: E,
    proba_2: u64,
    proba_4: u64,
    base_max_search_depth: usize,
    min_branch_proba: u64,
    move_tables: MoveTables,
    transposition_table: TranspositionTable,
}

/// Configuration of a `Solver`, with its defaults.
pub struct SolverBuilder<E: BoardEvaluator> {
    /// Evaluates the boards at the leaves of the search
    pub board_evaluator: E,
    /// Probability, in millionths, that a spawned tile is a 4 (default 100 000: 0.1)
    pub proba_4: u64,
    /// Search depth on easy boards (default 3)
    pub base_max_search_depth: usize,
    /// Branches less likely than this, in millionths, are not explored (default 10 000: 0.01)
    pub min_branch_proba: u64,
}

impl Default for SolverBuilder<PrecomputedBoardEvaluator> {
    fn default() -> (r: Self)
        ensures
            r.board_evaluator.precomputes(
                &MonotonicityEvaluator { gameover_penalty: -300i64, monotonicity_power: 2u32 },
            ),
            r.board_evaluator.evaluator_ok(),
            r.proba_4 == 100_000,
            r.base_max_search_depth == 3,
            r.min_branch_proba == 10_000,
    {
        Self {
            board_evaluator: PrecomputedBoardEvaluator::new(MonotonicityEvaluator::default()),
            proba_4: 100_000,
            base_max_search_depth: 3,
            min_branch_proba: 10_000,
        }
    }
}

impl<E: BoardEvaluator> SolverBuilder<E> {
    /// Sets the `BoardEvaluator` implementation to use in the solver
    pub fn board_evaluator<T: BoardEvaluator>(self, evaluator: T) -> (r: SolverBuilder<T>)
        ensures
            r.board_evaluator == evaluator,
            r.proba_4 == self.proba_4,
            r.base_max_search_depth == self.base_max_search_depth,
            r.min_branch_proba == self.min_branch_proba,
    {
        SolverBuilder {
            board_evaluator: evaluator,
            proba_4: self.proba_4,
            base_max_search_depth: self.base_max_search_depth,
            min_branch_proba: self.min_branch_proba,
        }
    }

    /// Sets the probability, in millionths, of drawing a 4 tile
    pub fn proba_4(self, proba_4: u64) -> (r: Self)
        ensures
            r.board_evaluator == self.board_evaluator,
            r.proba_4 == proba_4,
            r.base_max_search_depth == self.base_max_search_depth,
            r.min_branch_proba == self.min_branch_proba,
    {
        SolverBuilder { proba_4, ..self }
    }

    /// Sets the search depth used on easy boards. Boards with many distinct tiles are
    /// searched deeper.
    pub fn base_max_search_depth(self, max_search_depth: usize) -> (r: Self)
        ensures
            r.board_evaluator == self.board_evaluator,
            r.proba_4 == self.proba_4,
            r.base_max_search_depth == max_search_depth,
            r.min_branch_proba == self.min_branch_proba,
    {
        SolverBuilder { base_max_search_depth: max_search_depth, ..self }
    }

    /// Sets the minimum probability, in millionths, for a branch to be explored
    pub fn min_branch_proba(self, proba: u64) -> (r: Self)
        ensures
            r.board_evaluator == self.board_evaluator,
            r.proba_4 == self.proba_4,
            r.base_max_search_depth == self.base_max_search_depth,
            r.min_branch_proba == proba,
    {
        SolverBuilder { min_branch_proba: proba, ..self }
    }

    /// The solver with this configuration.
    pub fn build(self) -> (r: Solver<E>)
        requires
            self.proba_4 <= PROBA_SCALE,
            self.board_evaluator.evaluator_ok(),
        ensures
            r.inv(),
            r.evaluator() == self.board_evaluator,
            r.proba_4() == self.proba_4,
            r.base_depth() == self.base_max_search_depth,
            r.min_branch_proba() == self.min_branch_proba,
    {
        Solver {
            board_evaluator: self.board_evaluator,
            proba_2: PROBA_SCALE - self.proba_4,
            proba_4: self.proba_4,
            base_max_search_depth: self.base_max_search_depth,
            min_branch_proba: self.min_branch_proba,
            move_tables: MoveTables::new(),
            transposition_table: new_table(),
        }
    }
}

impl<E: BoardEvaluator> Solver<E> {
    /// The evaluator used at the leaves.
    pub closed spec fn evaluator(&self) -> E {
        self.board_evaluator
    }

    /// The probability of a 4, in millionths.
    pub closed spec fn proba_4(&self) -> nat {
        self.proba_4 as nat
    }

    /// The base search depth.
    pub closed spec fn base_depth(&self) -> nat {
        self.base_max_search_depth as nat
    }

    /// The minimum branch probability, in millionths.
    pub closed spec fn min_branch_proba(&self) -> nat {
        self.min_branch_proba as nat
    }

    /// Both solvers search with the same configuration.
    pub open spec fn same_config(&self, other: &Self) -> bool {
        &&& self.evaluator() == other.evaluator()
        &&& self.proba_4() == other.proba_4()
        &&& self.base_depth() == other.base_depth()
        &&& self.min_branch_proba() == other.min_branch_proba()
    }

    /// The move `next_best_move` picks on `board`.
    pub open spec fn spec_next_best_move(&self, board: Board) -> Option<Direction> {
        best_move(
            self.evaluator(),
            self.proba_4(),
            self.min_branch_proba(),
            board,
            search_depth(self.base_depth(), board),
        )
    }

    /// The transposition table: chance values by packed board, each with the depth and
    /// branch probability it was computed at. A value is reused only for that same depth
    /// and branch probability; otherwise it is computed again and replaces the entry.
    pub closed spec fn cache(&self) -> Map<u64, CachedValue> {
        self.transposition_table@
    }

    /// The configuration is valid, and every value of the transposition table is the chance
    /// value of its board at the depth and branch probability stored with it.
    pub closed spec fn inv(&self) -> bool {
        &&& self.proba_4 <= PROBA_SCALE
        &&& self.proba_2 == PROBA_SCALE - self.proba_4
        &&& self.board_evaluator.evaluator_ok()
        &&& self.move_tables.well_formed()
        &&& forall|k: u64|
            #[trigger] self.transposition_table@.contains_key(k) ==> {
                let c = self.transposition_table@[k];
                &&& -BOARD_SCORE_LIMIT <= c.value <= BOARD_SCORE_LIMIT
                &&& c.value == chance_value(
                    self.board_evaluator,
                    self.proba_4 as nat,
                    self.min_branch_proba as nat,
                    Board { state: k },
                    c.depth as nat,
                    c.branch_proba as nat,
                )
            }
    }

    /// Returns the best move on `board`, or `None` when no move changes it (game over).
    /// On a tie the first of Left, Right, Up, Down wins.
    pub fn next_best_move(&mut self, board: Board) -> (r: Option<Direction>)
        requires
            old(self).inv(),
        ensures
            final(self).inv(),
            final(self).same_config(old(self)),
            r == old(self).spec_next_best_move(board),
    {
        let max_depth = self.compute_max_depth(board);
        self.search(board, max_depth)
    }

    /// Returns the best move on `board` searched to `depth`, or `None` when no move changes
    /// it. The transposition table is emptied first.
    pub fn search(&mut self, board: Board, depth: usize) -> (r: Option<Direction>)
        requires
            old(self).inv(),
        ensures
            final(self).inv(),
            final(self).same_config(old(self)),
            r == best_move(
                old(self).evaluator(),
                old(self).proba_4(),
                old(self).min_branch_proba(),
                board,
                depth as nat,
            ),
    {
        self.transposition_table = new_table();
        match self.eval_max(board, depth, PROBA_SCALE) {
            Some((d, _)) => Some(d),
            None => None,
        }
    }

    /// The search depth for `board`.
    pub fn compute_max_depth(&self, board: Board) -> (r: usize)
        ensures
            r == search_depth(self.base_depth(), board),
    {
        let adjustment_factor: usize = match board.max_value() {
            2048 => 5,
            4096 => 3,
            8192 => 3,
            16384 => 2,
            32768 => 1,
            _ => 7,
        };
        let distinct = board.count_distinct_tiles();
        if distinct > adjustment_factor && distinct - adjustment_factor
            > self.base_max_search_depth {
            distinct - adjustment_factor
        } else {
            self.base_max_search_depth
        }
    }

    fn eval_max(&mut self, board: Board, remaining_depth: usize, branch_proba: u64) -> (r: Option<
        (Direction, i64),
    >)
        requires
            old(self).inv(),
            branch_proba <= PROBA_SCALE,
        ensures
            final(self).inv(),
            final(self).same_config(old(self)),
            widen(r) == max_node(
                old(self).evaluator(),
                old(self).proba_4(),
                old(self).min_branch_proba(),
                board,
                remaining_depth as nat,
                branch_proba as nat,
            ),
            r matches Some(x) ==> -BOARD_SCORE_LIMIT <= x.1 <= BOARD_SCORE_LIMIT,
        decreases remaining_depth, 2nat,
    {
        let ghost e = self.evaluator();
        let ghost p4 = self.proba_4();
        let ghost min_bp = self.min_branch_proba();
        let dirs = Direction::all();
        let mut best: Option<(Direction, i64)> = None;
        let mut k: usize = 0;
        while k < 4
            invariant
                k <= 4,
                self.inv(),
                self.same_config(old(self)),
                e == old(self).evaluator(),
                p4 == old(self).proba_4(),
                min_bp == old(self).min_branch_proba(),
                branch_proba <= PROBA_SCALE,
                dirs@ == seq![Direction::Left, Direction::Right, Direction::Up, Direction::Down],
                widen(best) == best_of(
                    e,
                    p4,
                    min_bp,
                    board,
                    remaining_depth as nat,
                    branch_proba as nat,
                    dirs@.subrange(0, k as int),
                ),
                best matches Some(x) ==> -BOARD_SCORE_LIMIT <= x.1 <= BOARD_SCORE_LIMIT,
            decreases 4 - k,
        {
            let d = dirs[k];
            let new_board = self.move_tables.move_board(board, d);
            assert(dirs@.subrange(0, k + 1).drop_last() =~= dirs@.subrange(0, k as int));
            if new_board != board {
                let v = self.eval_average(new_board, remaining_depth, branch_proba);
                match best {
                    None => {
                        best = Some((d, v));
                    },
                    Some((_, best_value)) => {
                        if v > best_value {
                            best = Some((d, v));
                        }
                    },
                }
            }
            k += 1;
        }
        assert(dirs@.subrange(0, 4) =~= dirs@);
        best
    }

    /// The spawn values of a 2 and of a 4 in the empty cell `idx` of `board`, weighted by
    /// their probabilities.
    fn spawn_term(
        &mut self,
        board: Board,
        idx: u8,
        remaining_depth: usize,
        proba_2_branch: u64,
        proba_4_branch: u64,
    ) -> (r: i128)
        requires
            old(self).inv(),
            idx < 16,
            remaining_depth > 0,
            proba_2_branch <= PROBA_SCALE,
            proba_4_branch <= PROBA_SCALE,
        ensures
            final(self).inv(),
            final(self).same_config(old(self)),
            r == (PROBA_SCALE - old(self).proba_4()) * spawn_value(
                old(self).evaluator(),
                max_node(
                    old(self).evaluator(),
                    old(self).proba_4(),
                    old(self).min_branch_proba(),
                    with_cell(board, idx, 1),
                    (remaining_depth - 1) as nat,
                    proba_2_branch as nat,
                ),
            ) + old(self).proba_4() * spawn_value(
                old(self).evaluator(),
                max_node(
                    old(self).evaluator(),
                    old(self).proba_4(),
                    old(self).min_branch_proba(),
                    with_cell(board, idx, 2),
                    (remaining_depth - 1) as nat,
                    proba_4_branch as nat,
                ),
            ),
            -(PROBA_SCALE * BOARD_SCORE_LIMIT) <= r <= PROBA_SCALE * BOARD_SCORE_LIMIT,
        decreases remaining_depth, 0nat,
    {
        let proba_2 = self.proba_2;
        let proba_4 = self.proba_4;
        let board_with_2 = board.set_value_by_exponent(idx, 1);
        let board_with_4 = board.set_value_by_exponent(idx, 2);
        let max_score_2 = match self.eval_max(board_with_2, remaining_depth - 1, proba_2_branch) {
            Some((_, score)) => score,
            None => self.board_evaluator.gameover_penalty(),
        };
        let max_score_4 = match self.eval_max(board_with_4, remaining_depth - 1, proba_4_branch) {
            Some((_, score)) => score,
            None => self.board_evaluator.gameover_penalty(),
        };
        proof {
            let a = max_score_2 as int;
            let b = max_score_4 as int;
            let l = BOARD_SCORE_LIMIT as int;
            assert(-(PROBA_SCALE * l) <= proba_2 * a + proba_4 * b <= PROBA_SCALE * l
                && -(PROBA_SCALE * l) <= proba_2 * a <= PROBA_SCALE * l
                && -(PROBA_SCALE * l) <= proba_4 * b <= PROBA_SCALE * l) by (nonlinear_arith)
                requires
                    -l <= a <= l,
                    -l <= b <= l,
                    0 <= proba_2,
                    0 <= proba_4,
                    proba_2 + proba_4 == PROBA_SCALE,
            ;
        }
        (proba_2 as i128) * (max_score_2 as i128) + (proba_4 as i128) * (max_score_4 as i128)
    }

    #[verifier::rlimit(50)]
    fn eval_average(&mut self, board: Board, remaining_depth: usize, branch_proba: u64) -> (r: i64)
        requires
            old(self).inv(),
            branch_proba <= PROBA_SCALE,
        ensures
            final(self).inv(),
            final(self).same_config(old(self)),
            r == chance_value(
                old(self).evaluator(),
                old(self).proba_4(),
                old(self).min_branch_proba(),
                board,
                remaining_depth as nat,
                branch_proba as nat,
            ),
            -BOARD_SCORE_LIMIT <= r <= BOARD_SCORE_LIMIT,
            remaining_depth == 0 || branch_proba < old(self).min_branch_proba() || empty_cells(
                board@,
            ).len() == 0 ==> final(self).cache() == old(self).cache(),
            !(remaining_depth == 0 || branch_proba < old(self).min_branch_proba() || empty_cells(
                board@,
            ).len() == 0) ==> final(self).cache().contains_key(board.state) && final(self).cache()[board.state]
                == (CachedValue { value: r, depth: remaining_depth, branch_proba }),
        decreases remaining_depth, 1nat,
    {
        let ghost e = self.evaluator();
        let ghost p4 = self.proba_4();
        let ghost min_bp = self.min_branch_proba();
        let empty_tiles = board.empty_tiles_indices();
        let nb_empty_tiles = empty_tiles.len();
        let ghost cells = empty_cells(board@);
        proof {
            lemma_empties_bounded(board@, 0);
            board.lemma_cells_bounded();
        }
        if remaining_depth == 0 || branch_proba < self.min_branch_proba || nb_empty_tiles == 0 {
            return self.board_evaluator.evaluate(board);
        }
        match table_get(&self.transposition_table, board.state) {
            Some(cached) => {
                if cached.depth == remaining_depth && cached.branch_proba == branch_proba {
                    assert(self.transposition_table@.contains_key(board.state));
                    assert(self.transposition_table@[board.state] == (CachedValue {
                        value: cached.value,
                        depth: remaining_depth,
                        branch_proba,
                    }));
                    return cached.value;
                }
            },
            None => {},
        }
        let proba_2 = self.proba_2;
        let proba_4 = self.proba_4;
        assert(nb_empty_tiles <= 16);
        let denom: u64 = PROBA_SCALE * (nb_empty_tiles as u64);
        proof {
            let bp = branch_proba as int;
            assert(bp * proba_2 <= bp * denom && bp * proba_4 <= bp * denom
                && bp * denom <= PROBA_SCALE * denom && 0 <= bp * proba_2 && 0 <= bp * proba_4) by (nonlinear_arith)
                requires
                    0 <= bp <= PROBA_SCALE,
                    0 <= proba_2 <= PROBA_SCALE,
                    0 <= proba_4 <= PROBA_SCALE,
                    PROBA_SCALE <= denom,
            ;
            lemma_div_is_ordered(bp * proba_2, bp * denom, denom as int);
            lemma_div_is_ordered(bp * proba_4, bp * denom, denom as int);
            lemma_div_multiples_vanish(bp, denom as int);
            assert(bp * denom == denom * bp) by (nonlinear_arith);
        }
        let proba_2_branch = branch_proba * proba_2 / denom;
        let proba_4_branch = branch_proba * proba_4 / denom;
        let mut scores_sum: i128 = 0;
        let mut k: usize = 0;
        while k < nb_empty_tiles
            invariant
                k <= nb_empty_tiles,
                nb_empty_tiles == empty_tiles.len(),
                1 <= nb_empty_tiles <= 16,
                empty_tiles@.map_values(|x: u8| x as nat) == cells,
                cells == empty_cells(board@),
                forall|j: int| 0 <= j < cells.len() ==> #[trigger] cells[j] < 16,
                remaining_depth > 0,
                self.inv(),
                self.same_config(old(self)),
                e == old(self).evaluator(),
                p4 == old(self).proba_4(),
                min_bp == old(self).min_branch_proba(),
                proba_4 == p4,
                proba_2 == PROBA_SCALE - proba_4,
                denom == nb_empty_tiles * PROBA_SCALE,
                proba_2_branch as int == branch_proba as int * proba_2 as int / denom as int,
                proba_4_branch as int == branch_proba as int * proba_4 as int / denom as int,
                proba_2_branch <= PROBA_SCALE,
                proba_4_branch <= PROBA_SCALE,
                scores_sum == chance_sum(
                    e,
                    p4,
                    min_bp,
                    board,
                    remaining_depth as nat,
                    branch_proba as nat,
                    cells.subrange(0, k as int),
                ),
                -(k * PROBA_SCALE * BOARD_SCORE_LIMIT) <= scores_sum <= k * PROBA_SCALE
                    * BOARD_SCORE_LIMIT,
            decreases nb_empty_tiles - k,
        {
            let idx = empty_tiles[k];
            assert(cells[k as int] == idx as nat);
            let term = self.spawn_term(board, idx, remaining_depth, proba_2_branch, proba_4_branch);
            proof {
                assert(cells.subrange(0, k + 1).drop_last() =~= cells.subrange(0, k as int));
            }
            scores_sum = scores_sum + term;
            k += 1;
        }
        assert(cells.subrange(0, nb_empty_tiles as int) =~= cells);
        let average = floor_div(scores_sum, denom);
        table_insert(
            &mut self.transposition_table,
            board.state,
            CachedValue { value: average, depth: remaining_depth, branch_proba },
        );
        average
    }
}

/// On a full board where no two neighbouring tiles are equal, the search finds no move.
pub proof fn lemma_stuck_board_has_no_move<E: BoardEvaluator>(solver: &Solver<E>, board: Board)
    requires
        is_stuck(board@),
    ensures
        solver.spec_next_best_move(board) is None,
{
    let e = solver.evaluator();
    let p4 = solver.proba_4();
    let min_bp = solver.min_branch_proba();
    let depth = search_depth(solver.base_depth(), board);
    let bp = PROBA_SCALE as nat;
    let dirs = seq![Direction::Left, Direction::Right, Direction::Up, Direction::Down];
    lemma_stuck_board_unmoved(board, Direction::Left);
    lemma_stuck_board_unmoved(board, Direction::Right);
    lemma_stuck_board_unmoved(board, Direction::Up);
    lemma_stuck_board_unmoved(board, Direction::Down);
    let d0 = Seq::<Direction>::empty();
    let d1 = seq![Direction::Left];
    let d2 = seq![Direction::Left, Direction::Right];
    let d3 = seq![Direction::Left, Direction::Right, Direction::Up];
    assert(d1.drop_last() =~= d0 && d1.last() == Direction::Left);
    assert(d2.drop_last() =~= d1 && d2.last() == Direction::Right);
    assert(d3.drop_last() =~= d2 && d3.last() == Direction::Up);
    assert(dirs.drop_last() =~= d3 && dirs.last() == Direction::Down);
    assert(best_of(e, p4, min_bp, board, depth, bp, d0) is None);
    assert(best_of(e, p4, min_bp, board, depth, bp, d1) is None);
    assert(best_of(e, p4, min_bp, board, depth, bp, d2) is None);
    assert(best_of(e, p4, min_bp, board, depth, bp, d3) is None);
    assert(best_of(e, p4, min_bp, board, depth, bp, dirs) is None);
}

/// Two solvers with the same configuration pick the same move on the same board; as
/// `next_best_move` keeps the configuration, repeated calls agree.
pub proof fn lemma_next_best_move_deterministic<E: BoardEvaluator>(
    a: &Solver<E>,
    b: &Solver<E>,
    board: Board,
)
    requires
        a.same_config(b),
    ensures
        a.spec_next_best_move(board) == b.spec_next_best_move(board),
{
}

} // verus!
