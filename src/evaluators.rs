//! Board evaluators: a board is mapped to an integer score, higher being better.
//!
//! Scores are integers so that the search can be proved free of overflow; a heuristic
//! that needs finer grain scales its weights instead.
use crate::board::{column_bits, max_exponent_upto, row_bits, Board};
use crate::utils::{row_cell, row_cells, tile_value, ROW_COUNT};
use vstd::arithmetic::div_mod::lemma_hoist_over_denominator;
use vstd::arithmetic::power::{lemma_pow_increases, lemma_pow_positive, pow};
use vstd::prelude::*;

verus! {

/// Bound on the score of one row given by a row evaluator, and on its game-over penalty.
pub const ROW_SCORE_LIMIT: i64 = 576_460_752_303_423_488;

/// Bound on the score of a board, and on a board evaluator's game-over penalty: eight rows.
pub const BOARD_SCORE_LIMIT: i64 = 4_611_686_018_427_387_904;

/// Evaluate a `Board` by mapping it to a number. The higher the number, the better the board
/// state.
pub trait BoardEvaluator {
    /// The parameters of the evaluator are within the bounds it supports.
    spec fn evaluator_ok(&self) -> bool;

    /// The score of `board`.
    spec fn board_score(&self, board: Board) -> int;

    /// The score of a position from which no move is possible.
    spec fn penalty_score(&self) -> int;

    fn evaluate(&self, board: Board) -> (r: i64)
        requires
            self.evaluator_ok(),
        ensures
            r == self.board_score(board),
            -BOARD_SCORE_LIMIT <= r <= BOARD_SCORE_LIMIT,
    ;

    fn gameover_penalty(&self) -> (r: i64)
        requires
            self.evaluator_ok(),
        ensures
            r == self.penalty_score(),
            -BOARD_SCORE_LIMIT <= r <= BOARD_SCORE_LIMIT,
    ;
}

/// Evaluate a `Board` by evaluating independently each row and column and summing the results
pub trait RowColumnEvaluator {
    /// The parameters of the evaluator are within the bounds it supports.
    spec fn row_evaluator_ok(&self) -> bool;

    /// The score of one packed row (or column, packed with its top cell leftmost).
    spec fn row_score(&self, row: u16) -> int;

    /// The score of a position from which no move is possible.
    spec fn row_penalty(&self) -> int;

    fn evaluate_row(&self, row: u16) -> (r: i64)
        requires
            self.row_evaluator_ok(),
        ensures
            r == self.row_score(row),
            -ROW_SCORE_LIMIT <= r <= ROW_SCORE_LIMIT,
    ;

    fn gameover_penalty(&self) -> (r: i64)
        requires
            self.row_evaluator_ok(),
        ensures
            r == self.row_penalty(),
            -ROW_SCORE_LIMIT <= r <= ROW_SCORE_LIMIT,
    ;
}

/// The sum of the scores of the four rows and the four columns of `board`.
pub open spec fn rows_columns_total<E: RowColumnEvaluator>(e: &E, board: Board) -> int {
    e.row_score(row_bits(board, 0)) + e.row_score(column_bits(board, 0)) + e.row_score(
        row_bits(board, 1),
    ) + e.row_score(column_bits(board, 1)) + e.row_score(row_bits(board, 2)) + e.row_score(
        column_bits(board, 2),
    ) + e.row_score(row_bits(board, 3)) + e.row_score(column_bits(board, 3))
}

impl<T: RowColumnEvaluator> BoardEvaluator for T {
    open spec fn evaluator_ok(&self) -> bool {
        self.row_evaluator_ok()
    }

    open spec fn board_score(&self, board: Board) -> int {
        rows_columns_total(self, board)
    }

    open spec fn penalty_score(&self) -> int {
        self.row_penalty()
    }

    fn evaluate(&self, board: Board) -> (r: i64) {
        let rows = board.rows();
        let columns = board.columns();
        self.evaluate_row(rows[0]) + self.evaluate_row(columns[0]) + self.evaluate_row(rows[1])
            + self.evaluate_row(columns[1]) + self.evaluate_row(rows[2]) + self.evaluate_row(
            columns[2],
        ) + self.evaluate_row(rows[3]) + self.evaluate_row(columns[3])
    }

    fn gameover_penalty(&self) -> (r: i64) {
        RowColumnEvaluator::gameover_penalty(self)
    }
}

/// `BoardEvaluator` that encapsulates a `RowColumnEvaluator` and computes its score for
/// every possible row / column beforehand. The scores are stored in a vector indexed by
/// the `u16` representation of each row, so that a board costs eight lookups.
pub struct PrecomputedBoardEvaluator {
    row_cache: Vec<i64>,
    gameover_penalty: i64,
}

/// The sum of the cached scores of the four rows and the four columns of `board`.
pub open spec fn cached_total(cache: Seq<i64>, board: Board) -> int {
    cache[row_bits(board, 0) as int] + cache[column_bits(board, 0) as int] + cache[row_bits(
        board,
        1,
    ) as int] + cache[column_bits(board, 1) as int] + cache[row_bits(board, 2) as int]
        + cache[column_bits(board, 2) as int] + cache[row_bits(board, 3) as int]
        + cache[column_bits(board, 3) as int]
}

impl PrecomputedBoardEvaluator {
    /// The cache holds the score that `evaluator` gives each row, and its penalty.
    pub closed spec fn precomputes<T: RowColumnEvaluator>(&self, evaluator: &T) -> bool {
        &&& self.row_cache.len() == ROW_COUNT
        &&& forall|row: int|
            0 <= row < ROW_COUNT ==> #[trigger] self.row_cache[row] == evaluator.row_score(
                row as u16,
            )
        &&& self.gameover_penalty == evaluator.row_penalty()
    }

    /// Scores every row with `evaluator`.
    pub fn new<T: RowColumnEvaluator>(evaluator: T) -> (r: Self)
        requires
            evaluator.row_evaluator_ok(),
        ensures
            r.precomputes(&evaluator),
            r.evaluator_ok(),
    {
        let mut row_cache: Vec<i64> = Vec::with_capacity(ROW_COUNT);
        let mut row: usize = 0;
        while row < ROW_COUNT
            invariant
                row <= ROW_COUNT,
                row_cache.len() == row,
                evaluator.row_evaluator_ok(),
                forall|i: int|
                    0 <= i < row ==> #[trigger] row_cache[i] == evaluator.row_score(i as u16),
                forall|i: int|
                    0 <= i < row ==> -ROW_SCORE_LIMIT <= #[trigger] row_cache[i] <= ROW_SCORE_LIMIT,
            decreases ROW_COUNT - row,
        {
            row_cache.push(evaluator.evaluate_row(row as u16));
            row += 1;
        }
        let gameover_penalty = RowColumnEvaluator::gameover_penalty(&evaluator);
        PrecomputedBoardEvaluator { row_cache, gameover_penalty }
    }
}

impl BoardEvaluator for PrecomputedBoardEvaluator {
    closed spec fn evaluator_ok(&self) -> bool {
        &&& self.row_cache.len() == ROW_COUNT
        &&& forall|row: int|
            0 <= row < ROW_COUNT ==> -ROW_SCORE_LIMIT <= #[trigger] self.row_cache[row]
                <= ROW_SCORE_LIMIT
        &&& -ROW_SCORE_LIMIT <= self.gameover_penalty <= ROW_SCORE_LIMIT
    }

    closed spec fn board_score(&self, board: Board) -> int {
        cached_total(self.row_cache@, board)
    }

    closed spec fn penalty_score(&self) -> int {
        self.gameover_penalty as int
    }

    fn evaluate(&self, board: Board) -> (r: i64) {
        let rows = board.rows();
        let columns = board.columns();
        self.row_cache[rows[0] as usize] + self.row_cache[columns[0] as usize]
            + self.row_cache[rows[1] as usize] + self.row_cache[columns[1] as usize]
            + self.row_cache[rows[2] as usize] + self.row_cache[columns[2] as usize]
            + self.row_cache[rows[3] as usize] + self.row_cache[columns[3] as usize]
    }

    fn gameover_penalty(&self) -> (r: i64) {
        self.gameover_penalty
    }
}

/// A precomputed evaluator scores every board, and penalises a dead end, exactly as the
/// row evaluator it was built from.
pub proof fn lemma_precomputed_equivalent<T: RowColumnEvaluator>(
    evaluator: &T,
    precomputed: &PrecomputedBoardEvaluator,
    board: Board,
)
    requires
        precomputed.precomputes(evaluator),
    ensures
        precomputed.board_score(board) == evaluator.board_score(board),
        precomputed.penalty_score() == evaluator.penalty_score(),
{
}

/// The largest power an `EmptyTileEvaluator` supports: the largest for which four empty
/// cells still score within `ROW_SCORE_LIMIT`.
pub const EMPTY_TILE_MAX_POWER: u32 = 29;

/// The largest power an `AlignmentEvaluator` supports: the largest for which three aligned
/// pairs still score within `ROW_SCORE_LIMIT`.
pub const ALIGNMENT_MAX_POWER: u32 = 37;

/// The largest power a `MonotonicityEvaluator` supports: the largest for which three falls
/// from exponent 15 still score within `ROW_SCORE_LIMIT`.
pub const MONOTONICITY_MAX_POWER: u32 = 14;

/// `pow` grows with its base.
proof fn lemma_pow_base_le(a: nat, b: nat, e: nat)
    requires
        a <= b,
    ensures
        0 <= pow(a as int, e) <= pow(b as int, e),
    decreases e,
{
    reveal(pow);
    if e > 0 {
        lemma_pow_base_le(a, b, (e - 1) as nat);
        let pa = pow(a as int, (e - 1) as nat);
        let pb = pow(b as int, (e - 1) as nat);
        assert(0 <= a * pa <= b * pb) by (nonlinear_arith)
            requires
                a <= b,
                0 <= pa <= pb,
        ;
    }
}

/// `pow(base, e) <= pow(top, e) <= pow(top, max_e)` for `base <= top` and `e <= max_e`.
proof fn lemma_pow_bounded(base: nat, top: nat, e: nat, max_e: nat)
    requires
        base <= top,
        1 <= top,
        e <= max_e,
    ensures
        0 <= pow(base as int, e) <= pow(top as int, max_e),
{
    lemma_pow_base_le(base, top, e);
    lemma_pow_increases(top, e, max_e);
}

proof fn lemma_heuristic_powers()
    ensures
        pow(4, EMPTY_TILE_MAX_POWER as nat) <= ROW_SCORE_LIMIT,
        pow(3, ALIGNMENT_MAX_POWER as nat) <= ROW_SCORE_LIMIT,
        3 * pow(15, MONOTONICITY_MAX_POWER as nat) <= ROW_SCORE_LIMIT,
{
    reveal_with_fuel(pow, 38);
}

/// `base` raised to `exp`.
pub fn small_power(base: u64, exp: u32) -> (r: u64)
    requires
        pow(base as int, exp as nat) <= ROW_SCORE_LIMIT,
    ensures
        r == pow(base as int, exp as nat),
{
    let mut acc: u64 = 1;
    let mut i: u32 = 0;
    proof {
        reveal(pow);
    }
    while i < exp
        invariant
            i <= exp,
            acc == pow(base as int, i as nat),
            pow(base as int, exp as nat) <= ROW_SCORE_LIMIT,
        decreases exp - i,
    {
        proof {
            reveal(pow);
            if base > 0 {
                lemma_pow_increases(base as nat, (i + 1) as nat, exp as nat);
            }
            assert(pow(base as int, (i + 1) as nat) == base * pow(base as int, i as nat));
        }
        acc = acc * base;
        i += 1;
    }
    acc
}

/// The number of empty cells of a row.
pub open spec fn empty_count(s: Seq<nat>) -> nat {
    (if s[0] == 0 { 1nat } else { 0nat }) + (if s[1] == 0 { 1nat } else { 0nat }) + (if s[2] == 0 {
        1nat
    } else {
        0nat
    }) + (if s[3] == 0 { 1nat } else { 0nat })
}

/// The number of neighbouring pairs of equal tiles in a row.
pub open spec fn aligned_count(s: Seq<nat>) -> nat {
    (if s[0] == s[1] && s[0] != 0 { 1nat } else { 0nat }) + (if s[1] == s[2] && s[1] != 0 {
        1nat
    } else {
        0nat
    }) + (if s[2] == s[3] && s[2] != 0 { 1nat } else { 0nat })
}

/// How much the powered exponent falls from `a` to its right neighbour `b` (0 if it does
/// not fall).
pub open spec fn fall(a: nat, b: nat, p: nat) -> int {
    if b < a {
        pow(a as int, p) - pow(b as int, p)
    } else {
        0
    }
}

/// The total fall of a row read from left to right.
pub open spec fn falls_rightwards(s: Seq<nat>, p: nat) -> int {
    fall(s[0], s[1], p) + fall(s[1], s[2], p) + fall(s[2], s[3], p)
}

/// The total fall of a row read from right to left.
pub open spec fn falls_leftwards(s: Seq<nat>, p: nat) -> int {
    fall(s[1], s[0], p) + fall(s[2], s[1], p) + fall(s[3], s[2], p)
}

/// Evaluates a row by its number of empty cells, raised to `power`.
pub struct EmptyTileEvaluator {
    pub gameover_penalty: i64,
    pub power: u32,
}

impl Default for EmptyTileEvaluator {
    fn default() -> (r: Self)
        ensures
            r.gameover_penalty == 0,
            r.power == 1,
    {
        Self { gameover_penalty: 0, power: 1 }
    }
}

impl EmptyTileEvaluator {
    /// The largest score: four empty cells.
    pub open spec fn score_bound(&self) -> int {
        pow(4, self.power as nat)
    }

    /// The score of `row`.
    pub fn score(&self, row: u16) -> (r: i64)
        requires
            self.row_evaluator_ok(),
        ensures
            r == self.row_score(row),
            0 <= r <= self.score_bound() <= ROW_SCORE_LIMIT,
    {
        let mut nb_empty: u64 = 0;
        let mut j: u8 = 0;
        while j < 4
            invariant
                j <= 4,
                nb_empty == empty_count(row_cells(row).subrange(0, j as int) + seq![1nat, 1nat, 1nat, 1nat]),
            decreases 4 - j,
        {
            let v = row_cell(row, j);
            if v == 0 {
                nb_empty += 1;
            }
            j += 1;
        }
        assert(row_cells(row).subrange(0, 4) + seq![1nat, 1nat, 1nat, 1nat] =~= row_cells(row)
            + seq![1nat, 1nat, 1nat, 1nat]);
        proof {
            lemma_pow_bounded(nb_empty as nat, 4, self.power as nat, EMPTY_TILE_MAX_POWER as nat);
            lemma_pow_base_le(nb_empty as nat, 4, self.power as nat);
            lemma_pow_bounded(4, 4, self.power as nat, EMPTY_TILE_MAX_POWER as nat);
            lemma_heuristic_powers();
        }
        small_power(nb_empty, self.power) as i64
    }
}

impl RowColumnEvaluator for EmptyTileEvaluator {
    open spec fn row_evaluator_ok(&self) -> bool {
        &&& self.power <= EMPTY_TILE_MAX_POWER
        &&& -ROW_SCORE_LIMIT <= self.gameover_penalty <= ROW_SCORE_LIMIT
    }

    open spec fn row_score(&self, row: u16) -> int {
        pow(empty_count(row_cells(row)) as int, self.power as nat)
    }

    open spec fn row_penalty(&self) -> int {
        self.gameover_penalty as int
    }

    fn evaluate_row(&self, row: u16) -> (r: i64) {
        self.score(row)
    }

    fn gameover_penalty(&self) -> (r: i64) {
        self.gameover_penalty
    }
}

/// Evaluates a row by its number of neighbouring pairs of equal tiles, raised to `power`.
pub struct AlignmentEvaluator {
    pub gameover_penalty: i64,
    pub power: u32,
}

impl Default for AlignmentEvaluator {
    fn default() -> (r: Self)
        ensures
            r.gameover_penalty == 0,
            r.power == 2,
    {
        Self { gameover_penalty: 0, power: 2 }
    }
}

impl AlignmentEvaluator {
    /// The largest score: three aligned pairs.
    pub open spec fn score_bound(&self) -> int {
        pow(3, self.power as nat)
    }

    /// The score of `row`.
    pub fn score(&self, row: u16) -> (r: i64)
        requires
            self.row_evaluator_ok(),
        ensures
            r == self.row_score(row),
            0 <= r <= self.score_bound() <= ROW_SCORE_LIMIT,
    {
        let c0 = row_cell(row, 0);
        let c1 = row_cell(row, 1);
        let c2 = row_cell(row, 2);
        let c3 = row_cell(row, 3);
        let mut nb_aligned: u64 = 0;
        if c0 == c1 && c0 != 0 {
            nb_aligned += 1;
        }
        if c1 == c2 && c1 != 0 {
            nb_aligned += 1;
        }
        if c2 == c3 && c2 != 0 {
            nb_aligned += 1;
        }
        proof {
            lemma_pow_bounded(nb_aligned as nat, 3, self.power as nat, ALIGNMENT_MAX_POWER as nat);
            lemma_pow_base_le(nb_aligned as nat, 3, self.power as nat);
            lemma_pow_bounded(3, 3, self.power as nat, ALIGNMENT_MAX_POWER as nat);
            lemma_heuristic_powers();
        }
        small_power(nb_aligned, self.power) as i64
    }
}

impl RowColumnEvaluator for AlignmentEvaluator {
    open spec fn row_evaluator_ok(&self) -> bool {
        &&& self.power <= ALIGNMENT_MAX_POWER
        &&& -ROW_SCORE_LIMIT <= self.gameover_penalty <= ROW_SCORE_LIMIT
    }

    open spec fn row_score(&self, row: u16) -> int {
        pow(aligned_count(row_cells(row)) as int, self.power as nat)
    }

    open spec fn row_penalty(&self) -> int {
        self.gameover_penalty as int
    }

    fn evaluate_row(&self, row: u16) -> (r: i64) {
        self.score(row)
    }

    fn gameover_penalty(&self) -> (r: i64) {
        self.gameover_penalty
    }
}

/// Evaluates how far a row is from being monotonic: the fall of the powered exponents,
/// read in the direction where it is smaller, negated. A monotonic row scores 0.
pub struct MonotonicityEvaluator {
    pub gameover_penalty: i64,
    pub monotonicity_power: u32,
}

impl Default for MonotonicityEvaluator {
    fn default() -> (r: Self)
        ensures
            r.gameover_penalty == -300,
            r.monotonicity_power == 2,
    {
        Self { gameover_penalty: -300, monotonicity_power: 2 }
    }
}

impl MonotonicityEvaluator {
    /// The largest magnitude of a score: three falls from exponent 15.
    pub open spec fn score_bound(&self) -> int {
        3 * pow(15, self.monotonicity_power as nat)
    }

    /// The score of `row`.
    pub fn score(&self, row: u16) -> (r: i64)
        requires
            self.row_evaluator_ok(),
        ensures
            r == self.row_score(row),
            -self.score_bound() <= r <= self.score_bound() <= ROW_SCORE_LIMIT,
    {
        let p = self.monotonicity_power;
        let c0 = row_cell(row, 0);
        let c1 = row_cell(row, 1);
        let c2 = row_cell(row, 2);
        let c3 = row_cell(row, 3);
        proof {
            lemma_heuristic_powers();
            lemma_pow_bounded(c0 as nat, 15, p as nat, MONOTONICITY_MAX_POWER as nat);
            lemma_pow_bounded(c1 as nat, 15, p as nat, MONOTONICITY_MAX_POWER as nat);
            lemma_pow_bounded(c2 as nat, 15, p as nat, MONOTONICITY_MAX_POWER as nat);
            lemma_pow_bounded(c3 as nat, 15, p as nat, MONOTONICITY_MAX_POWER as nat);
            lemma_pow_base_le(c0 as nat, 15, p as nat);
            lemma_pow_base_le(c1 as nat, 15, p as nat);
            lemma_pow_base_le(c2 as nat, 15, p as nat);
            lemma_pow_base_le(c3 as nat, 15, p as nat);
            lemma_pow_bounded(15, 15, p as nat, MONOTONICITY_MAX_POWER as nat);
        }
        let p0 = small_power(c0 as u64, p) as i64;
        let p1 = small_power(c1 as u64, p) as i64;
        let p2 = small_power(c2 as u64, p) as i64;
        let p3 = small_power(c3 as u64, p) as i64;
        let mut left_right: i64 = 0;
        let mut right_left: i64 = 0;
        if c1 < c0 {
            left_right += p0 - p1;
        } else if c1 > c0 {
            right_left += p1 - p0;
        }
        if c2 < c1 {
            left_right += p1 - p2;
        } else if c2 > c1 {
            right_left += p2 - p1;
        }
        if c3 < c2 {
            left_right += p2 - p3;
        } else if c3 > c2 {
            right_left += p3 - p2;
        }
        if left_right < right_left {
            -left_right
        } else {
            -right_left
        }
    }
}

impl RowColumnEvaluator for MonotonicityEvaluator {
    open spec fn row_evaluator_ok(&self) -> bool {
        &&& self.monotonicity_power <= MONOTONICITY_MAX_POWER
        &&& -ROW_SCORE_LIMIT <= self.gameover_penalty <= ROW_SCORE_LIMIT
    }

    open spec fn row_score(&self, row: u16) -> int {
        let s = row_cells(row);
        let p = self.monotonicity_power as nat;
        let a = falls_rightwards(s, p);
        let b = falls_leftwards(s, p);
        if a < b {
            -a
        } else {
            -b
        }
    }

    open spec fn row_penalty(&self) -> int {
        self.gameover_penalty as int
    }

    fn evaluate_row(&self, row: u16) -> (r: i64) {
        self.score(row)
    }

    fn gameover_penalty(&self) -> (r: i64) {
        self.gameover_penalty
    }
}

/// One of the named row heuristics.
pub enum RowHeuristic {
    EmptyTiles(EmptyTileEvaluator),
    Alignment(AlignmentEvaluator),
    Monotonicity(MonotonicityEvaluator),
}

impl RowHeuristic {
    /// The largest magnitude of a score of the heuristic.
    pub open spec fn score_bound(&self) -> int {
        match self {
            RowHeuristic::EmptyTiles(e) => e.score_bound(),
            RowHeuristic::Alignment(e) => e.score_bound(),
            RowHeuristic::Monotonicity(e) => e.score_bound(),
        }
    }

    /// The score of `row`.
    pub fn score(&self, row: u16) -> (r: i64)
        requires
            self.row_evaluator_ok(),
        ensures
            r == self.row_score(row),
            -self.score_bound() <= r <= self.score_bound() <= ROW_SCORE_LIMIT,
    {
        match self {
            RowHeuristic::EmptyTiles(e) => e.score(row),
            RowHeuristic::Alignment(e) => e.score(row),
            RowHeuristic::Monotonicity(e) => e.score(row),
        }
    }

    /// The game-over penalty.
    pub fn penalty(&self) -> (r: i64)
        requires
            self.row_evaluator_ok(),
        ensures
            r == self.row_penalty(),
            -ROW_SCORE_LIMIT <= r <= ROW_SCORE_LIMIT,
    {
        match self {
            RowHeuristic::EmptyTiles(e) => e.gameover_penalty,
            RowHeuristic::Alignment(e) => e.gameover_penalty,
            RowHeuristic::Monotonicity(e) => e.gameover_penalty,
        }
    }
}

impl RowColumnEvaluator for RowHeuristic {
    open spec fn row_evaluator_ok(&self) -> bool {
        match self {
            RowHeuristic::EmptyTiles(e) => e.row_evaluator_ok(),
            RowHeuristic::Alignment(e) => e.row_evaluator_ok(),
            RowHeuristic::Monotonicity(e) => e.row_evaluator_ok(),
        }
    }

    open spec fn row_score(&self, row: u16) -> int {
        match self {
            RowHeuristic::EmptyTiles(e) => e.row_score(row),
            RowHeuristic::Alignment(e) => e.row_score(row),
            RowHeuristic::Monotonicity(e) => e.row_score(row),
        }
    }

    open spec fn row_penalty(&self) -> int {
        match self {
            RowHeuristic::EmptyTiles(e) => e.row_penalty(),
            RowHeuristic::Alignment(e) => e.row_penalty(),
            RowHeuristic::Monotonicity(e) => e.row_penalty(),
        }
    }

    fn evaluate_row(&self, row: u16) -> (r: i64) {
        self.score(row)
    }

    fn gameover_penalty(&self) -> (r: i64) {
        self.penalty()
    }
}

/// The weighted sum of the scores that `parts` give `row`.
pub open spec fn weighted_total(parts: Seq<(RowHeuristic, i64)>, row: u16) -> int
    decreases parts.len(),
{
    if parts.len() == 0 {
        0
    } else {
        weighted_total(parts.drop_last(), row) + parts.last().1 * parts.last().0.row_score(row)
    }
}

/// The sum of the game-over penalties of `parts`.
pub open spec fn penalty_total(parts: Seq<(RowHeuristic, i64)>) -> int
    decreases parts.len(),
{
    if parts.len() == 0 {
        0
    } else {
        penalty_total(parts.drop_last()) + parts.last().0.row_penalty()
    }
}

/// The absolute value of `x`.
pub open spec fn magnitude(x: int) -> int {
    if x < 0 {
        -x
    } else {
        x
    }
}

/// The largest magnitude the weighted sum of the scores of `parts` can reach.
pub open spec fn weighted_bound(parts: Seq<(RowHeuristic, i64)>) -> int
    decreases parts.len(),
{
    if parts.len() == 0 {
        0
    } else {
        weighted_bound(parts.drop_last()) + magnitude(parts.last().1 as int)
            * parts.last().0.score_bound()
    }
}

/// The sum of the magnitudes of the game-over penalties of `parts`.
pub open spec fn penalty_bound(parts: Seq<(RowHeuristic, i64)>) -> int
    decreases parts.len(),
{
    if parts.len() == 0 {
        0
    } else {
        penalty_bound(parts.drop_last()) + magnitude(parts.last().0.row_penalty())
    }
}

/// Each heuristic is within its bounds, and the weighted sum of the scores, as the sum of
/// the penalties, stays within `ROW_SCORE_LIMIT`.
pub open spec fn parts_ok(parts: Seq<(RowHeuristic, i64)>) -> bool {
    &&& forall|i: int| 0 <= i < parts.len() ==> (#[trigger] parts[i]).0.row_evaluator_ok()
    &&& weighted_bound(parts) <= ROW_SCORE_LIMIT
    &&& penalty_bound(parts) <= ROW_SCORE_LIMIT
}

proof fn lemma_score_bound_nonneg(h: RowHeuristic)
    ensures
        h.score_bound() >= 0,
{
    match h {
        RowHeuristic::EmptyTiles(e) => lemma_pow_positive(4, e.power as nat),
        RowHeuristic::Alignment(e) => lemma_pow_positive(3, e.power as nat),
        RowHeuristic::Monotonicity(e) => lemma_pow_positive(15, e.monotonicity_power as nat),
    }
}

/// The bounds of a prefix of `parts` are within those of `parts`.
proof fn lemma_prefix_bounds(parts: Seq<(RowHeuristic, i64)>, i: int)
    requires
        0 <= i <= parts.len(),
    ensures
        0 <= weighted_bound(parts.subrange(0, i)) <= weighted_bound(parts),
        0 <= penalty_bound(parts.subrange(0, i)) <= penalty_bound(parts),
    decreases parts.len(),
{
    if parts.len() > 0 {
        let d = parts.drop_last();
        lemma_score_bound_nonneg(parts.last().0);
        let m = magnitude(parts.last().1 as int);
        let b = parts.last().0.score_bound();
        assert(0 <= m * b) by (nonlinear_arith)
            requires
                0 <= m,
                0 <= b,
        ;
        if i < parts.len() {
            lemma_prefix_bounds(d, i);
            assert(d.subrange(0, i) =~= parts.subrange(0, i));
        } else {
            lemma_prefix_bounds(d, d.len() as int);
            assert(d.subrange(0, d.len() as int) =~= d);
            assert(parts.subrange(0, i) =~= parts);
        }
    } else {
        assert(parts.subrange(0, i) =~= parts);
    }
}

/// `RowColumnEvaluator` that combines several heuristics by a weighted sum of their scores;
/// its game-over penalty is the sum of theirs.
pub struct CombinedBoardEvaluator {
    /// evaluators along with their weight
    evaluators: Vec<(RowHeuristic, i64)>,
}

impl Default for CombinedBoardEvaluator {
    fn default() -> (r: Self)
        ensures
            r.parts() == Seq::<(RowHeuristic, i64)>::empty(),
    {
        CombinedBoardEvaluator { evaluators: Vec::new() }
    }
}

impl CombinedBoardEvaluator {
    /// The heuristics and their weights, in the order they were added.
    pub closed spec fn parts(&self) -> Seq<(RowHeuristic, i64)> {
        self.evaluators@
    }

    /// Adds `evaluator`, with `weight`.
    pub fn combine(self, evaluator: RowHeuristic, weight: i64) -> (r: Self)
        ensures
            r.parts() == self.parts().push((evaluator, weight)),
    {
        let mut evaluators = self.evaluators;
        evaluators.push((evaluator, weight));
        CombinedBoardEvaluator { evaluators }
    }
}

impl RowColumnEvaluator for CombinedBoardEvaluator {
    open spec fn row_evaluator_ok(&self) -> bool {
        parts_ok(self.parts())
    }

    open spec fn row_score(&self, row: u16) -> int {
        weighted_total(self.parts(), row)
    }

    open spec fn row_penalty(&self) -> int {
        penalty_total(self.parts())
    }

    fn evaluate_row(&self, row: u16) -> (r: i64) {
        let ghost parts = self.parts();
        let mut acc: i64 = 0;
        let mut i: usize = 0;
        while i < self.evaluators.len()
            invariant
                i <= self.evaluators.len(),
                parts == self.evaluators@,
                parts_ok(parts),
                acc == weighted_total(parts.subrange(0, i as int), row),
                -weighted_bound(parts.subrange(0, i as int)) <= acc <= weighted_bound(
                    parts.subrange(0, i as int),
                ),
            decreases self.evaluators.len() - i,
        {
            let (h, w) = &self.evaluators[i];
            assert(parts[i as int].0.row_evaluator_ok());
            let v = h.score(row);
            let wv = *w;
            proof {
                lemma_prefix_bounds(parts, i + 1);
                assert(parts.subrange(0, i + 1).drop_last() =~= parts.subrange(0, i as int));
                let m = magnitude(wv as int);
                let b = h.score_bound();
                assert(-(m * b) <= wv * v <= m * b) by (nonlinear_arith)
                    requires
                        -b <= v <= b,
                        m == (if wv < 0 {
                            -(wv as int)
                        } else {
                            wv as int
                        }),
                ;
            }
            acc = acc + wv * v;
            assert(parts.subrange(0, i + 1).drop_last() =~= parts.subrange(0, i as int));
            i += 1;
        }
        assert(parts.subrange(0, parts.len() as int) =~= parts);
        acc
    }

    fn gameover_penalty(&self) -> (r: i64) {
        let ghost parts = self.parts();
        let mut acc: i64 = 0;
        let mut i: usize = 0;
        while i < self.evaluators.len()
            invariant
                i <= self.evaluators.len(),
                parts == self.evaluators@,
                parts_ok(parts),
                acc == penalty_total(parts.subrange(0, i as int)),
                -penalty_bound(parts.subrange(0, i as int)) <= acc <= penalty_bound(
                    parts.subrange(0, i as int),
                ),
            decreases self.evaluators.len() - i,
        {
            let (h, _) = &self.evaluators[i];
            assert(parts[i as int].0.row_evaluator_ok());
            proof {
                lemma_prefix_bounds(parts, i + 1);
                assert(parts.subrange(0, i + 1).drop_last() =~= parts.subrange(0, i as int));
            }
            acc = acc + h.penalty();
            assert(parts.subrange(0, i + 1).drop_last() =~= parts.subrange(0, i as int));
            i += 1;
        }
        assert(parts.subrange(0, parts.len() as int) =~= parts);
        acc
    }
}

/// `BoardEvaluator` that scores a board by its largest tile value.
pub struct MaxTileEvaluator {
    pub gameover_penalty: i64,
}

impl BoardEvaluator for MaxTileEvaluator {
    open spec fn evaluator_ok(&self) -> bool {
        -BOARD_SCORE_LIMIT <= self.gameover_penalty <= BOARD_SCORE_LIMIT
    }

    open spec fn board_score(&self, board: Board) -> int {
        tile_value(max_exponent_upto(board@, 16)) as int
    }

    open spec fn penalty_score(&self) -> int {
        self.gameover_penalty as int
    }

    fn evaluate(&self, board: Board) -> (r: i64) {
        board.max_value() as i64
    }

    fn gameover_penalty(&self) -> (r: i64) {
        self.gameover_penalty
    }
}

/// The largest score that `e` gives a row below `n` (the score of row 0 when `n <= 1`).
pub open spec fn max_row_score<T: RowColumnEvaluator>(e: &T, n: int) -> int
    decreases n,
{
    if n <= 1 {
        e.row_score(0)
    } else {
        let m = max_row_score(e, n - 1);
        let v = e.row_score((n - 1) as u16);
        if v > m {
            v
        } else {
            m
        }
    }
}

/// The smallest score that `e` gives a row below `n` (the score of row 0 when `n <= 1`).
pub open spec fn min_row_score<T: RowColumnEvaluator>(e: &T, n: int) -> int
    decreases n,
{
    if n <= 1 {
        e.row_score(0)
    } else {
        let m = min_row_score(e, n - 1);
        let v = e.row_score((n - 1) as u16);
        if v < m {
            v
        } else {
            m
        }
    }
}

/// The sum of the scores that `e` gives the rows below `n`.
pub open spec fn row_score_sum<T: RowColumnEvaluator>(e: &T, n: int) -> int
    decreases n,
{
    if n <= 0 {
        0
    } else {
        row_score_sum(e, n - 1) + e.row_score((n - 1) as u16)
    }
}

/// The range and mean of the scores a row evaluator gives the 65536 rows.
#[derive(Debug)]
pub struct EvaluatorStats {
    pub max_value: i64,
    pub min_value: i64,
    /// The mean, rounded down
    pub mean: i64,
}

/// Scores every row with `evaluator` and summarises the scores.
pub fn get_statistics<T: RowColumnEvaluator>(evaluator: &T) -> (r: EvaluatorStats)
    requires
        evaluator.row_evaluator_ok(),
    ensures
        r.max_value == max_row_score(evaluator, ROW_COUNT as int),
        r.min_value == min_row_score(evaluator, ROW_COUNT as int),
        r.mean == row_score_sum(evaluator, ROW_COUNT as int) / ROW_COUNT as int,
{
    let first = evaluator.evaluate_row(0);
    let mut max_value: i64 = first;
    let mut min_value: i64 = first;
    let mut sum: i128 = first as i128;
    let mut row: usize = 1;
    assert(row_score_sum(evaluator, 0) == 0);
    assert(((1 - 1) as int) as u16 == 0u16);
    assert(row_score_sum(evaluator, 1) == evaluator.row_score(0));
    while row < ROW_COUNT
        invariant
            1 <= row <= ROW_COUNT,
            evaluator.row_evaluator_ok(),
            max_value == max_row_score(evaluator, row as int),
            min_value == min_row_score(evaluator, row as int),
            sum == row_score_sum(evaluator, row as int),
            -(row * ROW_SCORE_LIMIT) <= sum <= row * ROW_SCORE_LIMIT,
        decreases ROW_COUNT - row,
    {
        let v = evaluator.evaluate_row(row as u16);
        if v > max_value {
            max_value = v;
        }
        if v < min_value {
            min_value = v;
        }
        sum = sum + v as i128;
        row += 1;
    }
    let limit: i128 = ROW_SCORE_LIMIT as i128;
    let shifted: u128 = (sum + limit * 65536) as u128;
    let q: u128 = shifted / 65536;
    proof {
        lemma_hoist_over_denominator(sum as int, limit as int, 65536);
    }
    EvaluatorStats { max_value, min_value, mean: (q as i128 - limit) as i64 }
}

} // verus!
