//! The board: sixteen 4-bit exponents packed in a `u64`, and the four moves.
use crate::error::{Error, ErrorKind};
use crate::utils::{
    build_left_moves_table, build_right_moves_table, exponent_of, exponent_of_value,
    get_exponent, get_left_move, get_right_move, is_tile_value, lemma_exponent_of_value,
    lemma_terminal_line_unchanged, no_equal_neighbours, packed_to_front, row_cells, slide_left,
    slide_right, tile_value, value_of_exponent, MAX_EXPONENT, ROW_COUNT,
};
use vstd::prelude::*;

verus! {

/// The exponent held by cell `i` (row-major, 0 to 15) of a packed board: cell 0 is the
/// most significant nibble.
pub open spec fn nib(x: u64, i: u64) -> u64 {
    (x >> ((60 - 4 * i) as u64)) & 0xFu64
}

/// `Board` is the state of the 16 tiles of the game.
///
/// Each tile is a power of two, stored as its exponent in 4 bits: `32 = 2^5` is stored as
/// `0101`. An empty cell is stored as `0000`, the exponent of the value 1, which is not part
/// of the game. All sixteen exponents fit in one `u64`, so that any `u64` is a board.
#[derive(Clone, Copy, PartialEq, Eq, Structural, Hash, Debug)]
pub struct Board {
    /// The packed exponents: cell `i` in bits `60 - 4i` to `63 - 4i`.
    pub state: u64,
}

impl Default for Board {
    /// The board with every cell empty.
    fn default() -> (r: Self)
        ensures
            r.state == 0,
    {
        Board { state: 0 }
    }
}

impl View for Board {
    type V = Seq<nat>;

    /// The sixteen exponents, row-major.
    open spec fn view(&self) -> Seq<nat> {
        Seq::new(16, |i: int| nib(self.state, i as u64) as nat)
    }
}

/// The four directions in which the tiles can be moved
#[derive(Clone, Copy, PartialEq, Eq, Structural, Debug)]
pub enum Direction {
    Left,
    Right,
    Up,
    Down,
}

impl Direction {
    /// The four directions, in the order in which the search tries them.
    pub fn all() -> (r: [Direction; 4])
        ensures
            r@ == seq![Direction::Left, Direction::Right, Direction::Up, Direction::Down],
    {
        let r = [Direction::Left, Direction::Right, Direction::Up, Direction::Down];
        assert(r@ =~= seq![Direction::Left, Direction::Right, Direction::Up, Direction::Down]);
        r
    }
}

/// Row `k` of the packed board `b`, as packed in `b`.
pub open spec fn row_bits(b: Board, k: int) -> u16 {
    ((b.state >> ((48 - 16 * k) as u64)) & 0xFFFFu64) as u16
}

/// The packed board with rows and columns swapped.
pub open spec fn transpose_state(x: u64) -> u64 {
    let a = (x & 0xF0F0_0F0F_F0F0_0F0Fu64) | ((x & 0x0000_F0F0_0000_F0F0u64) << 12u64) | ((x
        & 0x0F0F_0000_0F0F_0000u64) >> 12u64);
    (a & 0xFF00_FF00_00FF_00FFu64) | ((a & 0x00FF_00FF_0000_0000u64) >> 24u64) | ((a
        & 0x0000_0000_FF00_FF00u64) << 24u64)
}

/// Column `k` of the packed board `b`, packed as a row with its top cell leftmost.
pub open spec fn column_bits(b: Board, k: int) -> u16 {
    row_bits(Board { state: transpose_state(b.state) }, k)
}

/// The board `b` with cell `i` holding the exponent `e`.
pub open spec fn with_cell(b: Board, i: u8, e: u64) -> Board {
    Board {
        state: (b.state & !(0xFu64 << ((4 * (15 - i)) as u64))) | (e << ((4 * (15 - i)) as u64)),
    }
}

/// The board after moving `b` in direction `d`.
pub open spec fn moved_board(b: Board, d: Direction) -> Board {
    choose|r: Board| r@ == moved(b@, d)
}

/// Cells `4k` to `4k + 3`: row `k`, leftmost first.
pub open spec fn row_of(c: Seq<nat>, k: int) -> Seq<nat> {
    c.subrange(4 * k, 4 * k + 4)
}

/// Cells `k`, `k + 4`, `k + 8`, `k + 12`: column `k`, top first.
pub open spec fn column_of(c: Seq<nat>, k: int) -> Seq<nat> {
    seq![c[k], c[k + 4], c[k + 8], c[k + 12]]
}

/// The cells with rows and columns swapped.
pub open spec fn transpose_cells(c: Seq<nat>) -> Seq<nat> {
    seq![c[0], c[4], c[8], c[12], c[1], c[5], c[9], c[13], c[2], c[6], c[10], c[14], c[3], c[7], c[11], c[15]]
}

/// Every row slid to the left.
pub open spec fn slide_rows_left(c: Seq<nat>) -> Seq<nat> {
    slide_left(row_of(c, 0)) + slide_left(row_of(c, 1)) + slide_left(row_of(c, 2))
        + slide_left(row_of(c, 3))
}

/// Every row slid to the right.
pub open spec fn slide_rows_right(c: Seq<nat>) -> Seq<nat> {
    slide_right(row_of(c, 0)) + slide_right(row_of(c, 1)) + slide_right(row_of(c, 2))
        + slide_right(row_of(c, 3))
}

/// The cells after a move: rows slide for `Left` and `Right`; for `Up` and `Down` the
/// columns slide, towards the top and the bottom.
pub open spec fn moved(c: Seq<nat>, d: Direction) -> Seq<nat> {
    match d {
        Direction::Left => slide_rows_left(c),
        Direction::Right => slide_rows_right(c),
        Direction::Up => transpose_cells(slide_rows_left(transpose_cells(c))),
        Direction::Down => transpose_cells(slide_rows_right(transpose_cells(c))),
    }
}

/// The indices of the empty cells from `i` on, in increasing order.
pub open spec fn empties_from(c: Seq<nat>, i: int) -> Seq<nat>
    decreases c.len() - i,
{
    if i < 0 || i >= c.len() {
        Seq::empty()
    } else if c[i] == 0 {
        seq![i as nat] + empties_from(c, i + 1)
    } else {
        empties_from(c, i + 1)
    }
}

/// The indices of the empty cells, in increasing order.
pub open spec fn empty_cells(c: Seq<nat>) -> Seq<nat> {
    empties_from(c, 0)
}

/// The largest exponent among the first `n` cells (0 when there is none).
pub open spec fn max_exponent_upto(c: Seq<nat>, n: int) -> nat
    decreases n,
{
    if n <= 0 {
        0
    } else {
        let m = max_exponent_upto(c, n - 1);
        if c[n - 1] > m {
            c[n - 1]
        } else {
            m
        }
    }
}

/// The number of exponents from 1 to `n - 1` that some cell holds.
pub open spec fn present_below(c: Seq<nat>, n: int) -> nat
    decreases n,
{
    if n <= 1 {
        0
    } else {
        present_below(c, n - 1) + if c.contains((n - 1) as nat) {
            1nat
        } else {
            0nat
        }
    }
}

/// The number of distinct tiles, empty cells not counted.
pub open spec fn distinct_tiles(c: Seq<nat>) -> nat {
    present_below(c, 16)
}

/// The exponents of a sequence of valid tile values.
pub open spec fn cells_of_values(v: Seq<u16>) -> Seq<nat> {
    v.map_values(|x: u16| exponent_of_value(x as nat))
}

/// The tile values of a sequence of exponents.
pub open spec fn values_of_cells(c: Seq<nat>) -> Seq<u16> {
    c.map_values(|e: nat| tile_value(e) as u16)
}

/// Every value of `v` is a valid tile value.
pub open spec fn all_tile_values(v: Seq<u16>) -> bool {
    forall|i: int| 0 <= i < v.len() ==> is_tile_value(#[trigger] v[i] as nat)
}

proof fn lemma_nib_lt(x: u64, i: u64)
    by (bit_vector)
    requires
        i < 16,
    ensures
        nib(x, i) < 16,
{
}

proof fn lemma_nib_of_empty(i: u64)
    by (bit_vector)
    ensures
        nib(0u64, i) == 0,
{
}

proof fn lemma_set_nib_bits(x: u64, i: u64, v: u64, j: u64, r: u64)
    by (bit_vector)
    requires
        i < 16,
        j < 16,
        v < 16,
        r == (x & !(0xFu64 << ((60 - 4 * i) as u64))) | (v << ((60 - 4 * i) as u64)),
    ensures
        nib(r, j) == (if i == j { v } else { nib(x, j) }),
{
}

proof fn lemma_eq_from_nibs(a: u64, b: u64)
    by (bit_vector)
    requires
        nib(a, 0u64) == nib(b, 0u64),
        nib(a, 1u64) == nib(b, 1u64),
        nib(a, 2u64) == nib(b, 2u64),
        nib(a, 3u64) == nib(b, 3u64),
        nib(a, 4u64) == nib(b, 4u64),
        nib(a, 5u64) == nib(b, 5u64),
        nib(a, 6u64) == nib(b, 6u64),
        nib(a, 7u64) == nib(b, 7u64),
        nib(a, 8u64) == nib(b, 8u64),
        nib(a, 9u64) == nib(b, 9u64),
        nib(a, 10u64) == nib(b, 10u64),
        nib(a, 11u64) == nib(b, 11u64),
        nib(a, 12u64) == nib(b, 12u64),
        nib(a, 13u64) == nib(b, 13u64),
        nib(a, 14u64) == nib(b, 14u64),
        nib(a, 15u64) == nib(b, 15u64),
    ensures
        a == b,
{
}

proof fn lemma_masked_row_bound(x: u64)
    by (bit_vector)
    ensures
        (x >> 48u64) & 0xFFFFu64 <= 0xFFFF,
        (x >> 32u64) & 0xFFFFu64 <= 0xFFFF,
        (x >> 16u64) & 0xFFFFu64 <= 0xFFFF,
        (x >> 0u64) & 0xFFFFu64 <= 0xFFFF,
        x & 0xFFFFu64 <= 0xFFFF,
{
}

proof fn lemma_rows_bits(x: u64, r0: u16, r1: u16, r2: u16, r3: u16)
    by (bit_vector)
    requires
        r0 as u64 == (x >> 48u64) & 0xFFFFu64,
        r1 as u64 == (x >> 32u64) & 0xFFFFu64,
        r2 as u64 == (x >> 16u64) & 0xFFFFu64,
        r3 as u64 == (x >> 0u64) & 0xFFFFu64,
    ensures
        ((r0 >> 12u16) & 0xFu16) as u64 == nib(x, 0u64),
        ((r0 >> 8u16) & 0xFu16) as u64 == nib(x, 1u64),
        ((r0 >> 4u16) & 0xFu16) as u64 == nib(x, 2u64),
        (r0 & 0xFu16) as u64 == nib(x, 3u64),
        ((r1 >> 12u16) & 0xFu16) as u64 == nib(x, 4u64),
        ((r1 >> 8u16) & 0xFu16) as u64 == nib(x, 5u64),
        ((r1 >> 4u16) & 0xFu16) as u64 == nib(x, 6u64),
        (r1 & 0xFu16) as u64 == nib(x, 7u64),
        ((r2 >> 12u16) & 0xFu16) as u64 == nib(x, 8u64),
        ((r2 >> 8u16) & 0xFu16) as u64 == nib(x, 9u64),
        ((r2 >> 4u16) & 0xFu16) as u64 == nib(x, 10u64),
        (r2 & 0xFu16) as u64 == nib(x, 11u64),
        ((r3 >> 12u16) & 0xFu16) as u64 == nib(x, 12u64),
        ((r3 >> 8u16) & 0xFu16) as u64 == nib(x, 13u64),
        ((r3 >> 4u16) & 0xFu16) as u64 == nib(x, 14u64),
        (r3 & 0xFu16) as u64 == nib(x, 15u64),
{
}

proof fn lemma_from_rows_bits(r0: u16, r1: u16, r2: u16, r3: u16, x: u64)
    by (bit_vector)
    requires
        x == ((r0 as u64) << 48u64) | ((r1 as u64) << 32u64) | ((r2 as u64) << 16u64) | (r3 as u64),
    ensures
        nib(x, 0u64) == ((r0 >> 12u16) & 0xFu16) as u64,
        nib(x, 1u64) == ((r0 >> 8u16) & 0xFu16) as u64,
        nib(x, 2u64) == ((r0 >> 4u16) & 0xFu16) as u64,
        nib(x, 3u64) == (r0 & 0xFu16) as u64,
        nib(x, 4u64) == ((r1 >> 12u16) & 0xFu16) as u64,
        nib(x, 5u64) == ((r1 >> 8u16) & 0xFu16) as u64,
        nib(x, 6u64) == ((r1 >> 4u16) & 0xFu16) as u64,
        nib(x, 7u64) == (r1 & 0xFu16) as u64,
        nib(x, 8u64) == ((r2 >> 12u16) & 0xFu16) as u64,
        nib(x, 9u64) == ((r2 >> 8u16) & 0xFu16) as u64,
        nib(x, 10u64) == ((r2 >> 4u16) & 0xFu16) as u64,
        nib(x, 11u64) == (r2 & 0xFu16) as u64,
        nib(x, 12u64) == ((r3 >> 12u16) & 0xFu16) as u64,
        nib(x, 13u64) == ((r3 >> 8u16) & 0xFu16) as u64,
        nib(x, 14u64) == ((r3 >> 4u16) & 0xFu16) as u64,
        nib(x, 15u64) == (r3 & 0xFu16) as u64,
{
}

proof fn lemma_transpose_bits(x: u64, t: u64)
    by (bit_vector)
    requires
        t == transpose_state(x),
    ensures
        nib(t, 0u64) == nib(x, 0u64),
        nib(t, 1u64) == nib(x, 4u64),
        nib(t, 2u64) == nib(x, 8u64),
        nib(t, 3u64) == nib(x, 12u64),
        nib(t, 4u64) == nib(x, 1u64),
        nib(t, 5u64) == nib(x, 5u64),
        nib(t, 6u64) == nib(x, 9u64),
        nib(t, 7u64) == nib(x, 13u64),
        nib(t, 8u64) == nib(x, 2u64),
        nib(t, 9u64) == nib(x, 6u64),
        nib(t, 10u64) == nib(x, 10u64),
        nib(t, 11u64) == nib(x, 14u64),
        nib(t, 12u64) == nib(x, 3u64),
        nib(t, 13u64) == nib(x, 7u64),
        nib(t, 14u64) == nib(x, 11u64),
        nib(t, 15u64) == nib(x, 15u64),
{
}

impl Board {
    /// Two boards with the same cells are the same board.
    pub proof fn lemma_view_injective(a: Board, b: Board)
        requires
            a@ == b@,
        ensures
            a == b,
    {
        assert(a@[0] == nib(a.state, 0u64) as nat && b@[0] == nib(b.state, 0u64) as nat);
        assert(a@[1] == nib(a.state, 1u64) as nat && b@[1] == nib(b.state, 1u64) as nat);
        assert(a@[2] == nib(a.state, 2u64) as nat && b@[2] == nib(b.state, 2u64) as nat);
        assert(a@[3] == nib(a.state, 3u64) as nat && b@[3] == nib(b.state, 3u64) as nat);
        assert(a@[4] == nib(a.state, 4u64) as nat && b@[4] == nib(b.state, 4u64) as nat);
        assert(a@[5] == nib(a.state, 5u64) as nat && b@[5] == nib(b.state, 5u64) as nat);
        assert(a@[6] == nib(a.state, 6u64) as nat && b@[6] == nib(b.state, 6u64) as nat);
        assert(a@[7] == nib(a.state, 7u64) as nat && b@[7] == nib(b.state, 7u64) as nat);
        assert(a@[8] == nib(a.state, 8u64) as nat && b@[8] == nib(b.state, 8u64) as nat);
        assert(a@[9] == nib(a.state, 9u64) as nat && b@[9] == nib(b.state, 9u64) as nat);
        assert(a@[10] == nib(a.state, 10u64) as nat && b@[10] == nib(b.state, 10u64) as nat);
        assert(a@[11] == nib(a.state, 11u64) as nat && b@[11] == nib(b.state, 11u64) as nat);
        assert(a@[12] == nib(a.state, 12u64) as nat && b@[12] == nib(b.state, 12u64) as nat);
        assert(a@[13] == nib(a.state, 13u64) as nat && b@[13] == nib(b.state, 13u64) as nat);
        assert(a@[14] == nib(a.state, 14u64) as nat && b@[14] == nib(b.state, 14u64) as nat);
        assert(a@[15] == nib(a.state, 15u64) as nat && b@[15] == nib(b.state, 15u64) as nat);
        lemma_eq_from_nibs(a.state, b.state);
    }

    /// Every cell holds an exponent from 0 to 15.
    pub proof fn lemma_cells_bounded(self)
        ensures
            self@.len() == 16,
            forall|i: int| 0 <= i < 16 ==> #[trigger] self@[i] <= MAX_EXPONENT,
    {
        assert forall|i: int| 0 <= i < 16 implies #[trigger] self@[i] <= MAX_EXPONENT by {
            lemma_nib_lt(self.state, i as u64);
        }
    }

    /// The board with every cell empty.
    pub fn empty() -> (r: Board)
        ensures
            forall|i: int| 0 <= i < 16 ==> #[trigger] r@[i] == 0,
    {
        let r = Board { state: 0 };
        assert forall|i: int| 0 <= i < 16 implies #[trigger] r@[i] == 0 by {
            lemma_nib_of_empty(i as u64);
        }
        r
    }
}

impl Board {
    /// Each cell of the view, spelled out over the packed representation.
    proof fn lemma_cells(self)
        ensures
            self@.len() == 16,
            self@[0] == nib(self.state, 0u64) as nat,
            self@[1] == nib(self.state, 1u64) as nat,
            self@[2] == nib(self.state, 2u64) as nat,
            self@[3] == nib(self.state, 3u64) as nat,
            self@[4] == nib(self.state, 4u64) as nat,
            self@[5] == nib(self.state, 5u64) as nat,
            self@[6] == nib(self.state, 6u64) as nat,
            self@[7] == nib(self.state, 7u64) as nat,
            self@[8] == nib(self.state, 8u64) as nat,
            self@[9] == nib(self.state, 9u64) as nat,
            self@[10] == nib(self.state, 10u64) as nat,
            self@[11] == nib(self.state, 11u64) as nat,
            self@[12] == nib(self.state, 12u64) as nat,
            self@[13] == nib(self.state, 13u64) as nat,
            self@[14] == nib(self.state, 14u64) as nat,
            self@[15] == nib(self.state, 15u64) as nat,
    {
        assert(self@[0] == nib(self.state, 0u64) as nat);
        assert(self@[1] == nib(self.state, 1u64) as nat);
        assert(self@[2] == nib(self.state, 2u64) as nat);
        assert(self@[3] == nib(self.state, 3u64) as nat);
        assert(self@[4] == nib(self.state, 4u64) as nat);
        assert(self@[5] == nib(self.state, 5u64) as nat);
        assert(self@[6] == nib(self.state, 6u64) as nat);
        assert(self@[7] == nib(self.state, 7u64) as nat);
        assert(self@[8] == nib(self.state, 8u64) as nat);
        assert(self@[9] == nib(self.state, 9u64) as nat);
        assert(self@[10] == nib(self.state, 10u64) as nat);
        assert(self@[11] == nib(self.state, 11u64) as nat);
        assert(self@[12] == nib(self.state, 12u64) as nat);
        assert(self@[13] == nib(self.state, 13u64) as nat);
        assert(self@[14] == nib(self.state, 14u64) as nat);
        assert(self@[15] == nib(self.state, 15u64) as nat);
    }

    /// Returns the exponent of the value at the corresponding index.
    /// For example, if `get_value(3)` returns `512`, then `get_exponent_value(3)` returns `9`
    /// because 512 = 2^9
    pub fn get_exponent_value(self, tile_idx: u8) -> (r: u8)
        requires
            tile_idx < 16,
        ensures
            r as nat == self@[tile_idx as int],
            r <= MAX_EXPONENT,
    {
        let v: u64 = (self.state >> (4 * (15 - tile_idx as u64))) & 0xF;
        proof {
            lemma_nib_lt(self.state, tile_idx as u64);
            assert(self@[tile_idx as int] == nib(self.state, tile_idx as u64) as nat);
        }
        v as u8
    }

    /// Returns the value at the corresponding index (row-major), 0 for an empty cell.
    pub fn get_value(self, tile_idx: u8) -> (r: u16)
        requires
            tile_idx < 16,
        ensures
            r as nat == tile_value(self@[tile_idx as int]),
    {
        value_of_exponent(self.get_exponent_value(tile_idx))
    }

    /// Sets the value at the index `tile_idx` by giving its exponent directly.
    /// For example, `set_value_by_exponent(3, 9)` is equivalent to `set_value(3, 512)`
    /// because 512 = 2^9
    pub fn set_value_by_exponent(self, tile_idx: u8, value_exponent: u64) -> (r: Self)
        requires
            tile_idx < 16,
            value_exponent <= MAX_EXPONENT,
        ensures
            r@ == self@.update(tile_idx as int, value_exponent as nat),
            r == with_cell(self, tile_idx, value_exponent),
    {
        let bits_shift: u64 = 4 * (15 - tile_idx as u64);
        // 0000 at the cell, 1s everywhere else
        let clear_mask: u64 = !(0xFu64 << bits_shift);
        let update_mask: u64 = value_exponent << bits_shift;
        let r = Board { state: (self.state & clear_mask) | update_mask };
        proof {
            assert forall|j: int| 0 <= j < 16 implies #[trigger] r@[j] == self@.update(
                tile_idx as int,
                value_exponent as nat,
            )[j] by {
                lemma_set_nib_bits(self.state, tile_idx as u64, value_exponent, j as u64, r.state);
                assert(r@[j] == nib(r.state, j as u64) as nat);
                assert(self@[j] == nib(self.state, j as u64) as nat);
            }
            assert(r@ =~= self@.update(tile_idx as int, value_exponent as nat));
        }
        r
    }

    /// Sets the value `tile_value` at the index `tile_idx`.
    pub fn set_value(self, tile_idx: u8, tile_value: u16) -> (r: Self)
        requires
            tile_idx < 16,
            is_tile_value(tile_value as nat),
        ensures
            r@ == self@.update(tile_idx as int, exponent_of_value(tile_value as nat)),
    {
        let exponent = get_exponent(tile_value);
        self.set_value_by_exponent(tile_idx, exponent)
    }

    /// Returns the rows, each packed as a `u16`.
    pub fn rows(self) -> (r: [u16; 4])
        ensures
            forall|k: int| 0 <= k < 4 ==> row_cells(#[trigger] r[k]) == row_of(self@, k),
            forall|k: int| 0 <= k < 4 ==> #[trigger] r[k] == row_bits(self, k),
    {
        let m0 = (self.state >> 48u64) & 0xFFFF;
        let m1 = (self.state >> 32u64) & 0xFFFF;
        let m2 = (self.state >> 16u64) & 0xFFFF;
        let m3 = (self.state >> 0u64) & 0xFFFF;
        proof {
            lemma_masked_row_bound(self.state);
        }
        let r0 = m0 as u16;
        let r1 = m1 as u16;
        let r2 = m2 as u16;
        let r3 = m3 as u16;
        proof {
            lemma_rows_bits(self.state, r0, r1, r2, r3);
            self.lemma_cells();
            assert(row_cells(r0) =~= row_of(self@, 0));
            assert(row_cells(r1) =~= row_of(self@, 1));
            assert(row_cells(r2) =~= row_of(self@, 2));
            assert(row_cells(r3) =~= row_of(self@, 3));
            assert(r0 == row_bits(self, 0));
            assert(r1 == row_bits(self, 1));
            assert(r2 == row_bits(self, 2));
            assert(r3 == row_bits(self, 3));
        }
        [r0, r1, r2, r3]
    }

    /// The board made of four packed rows, top first.
    pub fn from_rows(rows: [u16; 4]) -> (r: Board)
        ensures
            r@ == row_cells(rows[0]) + row_cells(rows[1]) + row_cells(rows[2]) + row_cells(
                rows[3],
            ),
    {
        let r = Board {
            state: ((rows[0] as u64) << 48u64) | ((rows[1] as u64) << 32u64) | ((rows[2] as u64)
                << 16u64) | (rows[3] as u64),
        };
        proof {
            lemma_from_rows_bits(rows[0], rows[1], rows[2], rows[3], r.state);
            r.lemma_cells();
            assert(r@[0] == row_cells(rows[0])[0]);
            assert(r@[1] == row_cells(rows[0])[1]);
            assert(r@[2] == row_cells(rows[0])[2]);
            assert(r@[3] == row_cells(rows[0])[3]);
            assert(r@[4] == row_cells(rows[1])[0]);
            assert(r@[5] == row_cells(rows[1])[1]);
            assert(r@[6] == row_cells(rows[1])[2]);
            assert(r@[7] == row_cells(rows[1])[3]);
            assert(r@[8] == row_cells(rows[2])[0]);
            assert(r@[9] == row_cells(rows[2])[1]);
            assert(r@[10] == row_cells(rows[2])[2]);
            assert(r@[11] == row_cells(rows[2])[3]);
            assert(r@[12] == row_cells(rows[3])[0]);
            assert(r@[13] == row_cells(rows[3])[1]);
            assert(r@[14] == row_cells(rows[3])[2]);
            assert(r@[15] == row_cells(rows[3])[3]);
            assert(r@ =~= row_cells(rows[0]) + row_cells(rows[1]) + row_cells(rows[2])
                + row_cells(rows[3]));
        }
        r
    }

    /// The board with rows and columns swapped: a permutation of the bits, so that no
    /// cell is lost.
    pub fn transpose(self) -> (r: Self)
        ensures
            r@ == transpose_cells(self@),
            r.state == transpose_state(self.state),
    {
        let x = self.state;
        let a1 = x & 0xF0F0_0F0F_F0F0_0F0F;
        let a2 = x & 0x0000_F0F0_0000_F0F0;
        let a3 = x & 0x0F0F_0000_0F0F_0000;
        let a = a1 | (a2 << 12u64) | (a3 >> 12u64);
        let b1 = a & 0xFF00_FF00_00FF_00FF;
        let b2 = a & 0x00FF_00FF_0000_0000;
        let b3 = a & 0x0000_0000_FF00_FF00;
        let r = Board { state: b1 | (b2 >> 24u64) | (b3 << 24u64) };
        proof {
            lemma_transpose_bits(x, r.state);
            self.lemma_cells();
            r.lemma_cells();
            assert(r@ =~= transpose_cells(self@));
        }
        r
    }

    /// Returns the columns, each packed as a `u16` with its top cell leftmost.
    pub fn columns(self) -> (r: [u16; 4])
        ensures
            forall|k: int| 0 <= k < 4 ==> row_cells(#[trigger] r[k]) == column_of(self@, k),
            forall|k: int| 0 <= k < 4 ==> #[trigger] r[k] == column_bits(self, k),
    {
        let r = self.transpose().rows();
        assert forall|k: int| 0 <= k < 4 implies row_cells(#[trigger] r[k]) == column_of(
            self@,
            k,
        ) by {
            assert(row_of(transpose_cells(self@), k) =~= column_of(self@, k));
        }
        r
    }

    /// Row `i`, packed.
    pub fn get_row(self, i: usize) -> (r: u16)
        requires
            i < 4,
        ensures
            row_cells(r) == row_of(self@, i as int),
            r == row_bits(self, i as int),
    {
        let rows = self.rows();
        rows[i]
    }

    /// Column `i`, packed with its top cell leftmost.
    pub fn get_column(self, i: usize) -> (r: u16)
        requires
            i < 4,
        ensures
            row_cells(r) == column_of(self@, i as int),
            r == column_bits(self, i as int),
    {
        let columns = self.columns();
        columns[i]
    }

    /// Every row slid to the left.
    pub fn into_left(self) -> (r: Self)
        ensures
            r@ == moved(self@, Direction::Left),
    {
        let rows = self.rows();
        Board::from_rows(
            [
                get_left_move(rows[0]),
                get_left_move(rows[1]),
                get_left_move(rows[2]),
                get_left_move(rows[3]),
            ],
        )
    }

    /// Every row slid to the right.
    pub fn into_right(self) -> (r: Self)
        ensures
            r@ == moved(self@, Direction::Right),
    {
        let rows = self.rows();
        Board::from_rows(
            [
                get_right_move(rows[0]),
                get_right_move(rows[1]),
                get_right_move(rows[2]),
                get_right_move(rows[3]),
            ],
        )
    }

    /// Every column slid to the top.
    pub fn into_up(self) -> (r: Self)
        ensures
            r@ == moved(self@, Direction::Up),
    {
        self.transpose().into_left().transpose()
    }

    /// Every column slid to the bottom.
    pub fn into_down(self) -> (r: Self)
        ensures
            r@ == moved(self@, Direction::Down),
    {
        self.transpose().into_right().transpose()
    }

    /// Moves the tiles in the provided `Direction` and returns the resulting `Board`
    pub fn move_to(self, direction: Direction) -> (r: Self)
        ensures
            r@ == moved(self@, direction),
            r == moved_board(self, direction),
    {
        let r = match direction {
            Direction::Left => self.into_left(),
            Direction::Right => self.into_right(),
            Direction::Up => self.into_up(),
            Direction::Down => self.into_down(),
        };
        proof {
            lemma_moved_board(self, direction, r);
        }
        r
    }
}

impl Board {
    /// Returns the largest tile value of the board, 0 when every cell is empty.
    pub fn max_value(self) -> (r: u16)
        ensures
            r as nat == tile_value(max_exponent_upto(self@, 16)),
    {
        let mut m: u8 = 0;
        let mut i: u8 = 0;
        while i < 16
            invariant
                i <= 16,
                m as nat == max_exponent_upto(self@, i as int),
                m <= MAX_EXPONENT,
            decreases 16 - i,
        {
            let e = self.get_exponent_value(i);
            if e > m {
                m = e;
            }
            i += 1;
        }
        value_of_exponent(m)
    }

    /// Returns the indices of the empty cells, in increasing order.
    pub fn empty_tiles_indices(self) -> (r: Vec<u8>)
        ensures
            r@.map_values(|x: u8| x as nat) == empty_cells(self@),
    {
        let mut r: Vec<u8> = Vec::new();
        let mut i: u8 = 0;
        while i < 16
            invariant
                i <= 16,
                self@.len() == 16,
                r@.map_values(|x: u8| x as nat) + empties_from(self@, i as int) == empty_cells(
                    self@,
                ),
            decreases 16 - i,
        {
            let ghost before = r@;
            if self.get_exponent_value(i) == 0 {
                r.push(i);
                assert(r@.map_values(|x: u8| x as nat) =~= before.map_values(|x: u8| x as nat)
                    + seq![i as nat]);
            }
            i += 1;
        }
        assert(r@.map_values(|x: u8| x as nat) + empties_from(self@, 16) =~= r@.map_values(
            |x: u8| x as nat,
        ));
        r
    }

    /// Returns the number of empty cells.
    pub fn count_empty_tiles(self) -> (r: usize)
        ensures
            r == empty_cells(self@).len(),
    {
        let v = self.empty_tiles_indices();
        v.len()
    }

    /// Whether some cell holds the exponent `e`.
    pub fn contains_exponent(self, e: u8) -> (r: bool)
        ensures
            r == self@.contains(e as nat),
    {
        let mut i: u8 = 0;
        while i < 16
            invariant
                i <= 16,
                self@.len() == 16,
                forall|j: int| 0 <= j < i ==> self@[j] != e as nat,
            decreases 16 - i,
        {
            if self.get_exponent_value(i) == e {
                assert(self@[i as int] == e as nat);
                return true;
            }
            i += 1;
        }
        false
    }

    /// Returns the number of distinct tiles, excluding empty cells.
    pub fn count_distinct_tiles(self) -> (r: usize)
        ensures
            r == distinct_tiles(self@),
            r <= MAX_EXPONENT,
    {
        let mut count: usize = 0;
        let mut e: u8 = 1;
        while e < 16
            invariant
                1 <= e <= 16,
                count == present_below(self@, e as int),
                count < e,
            decreases 16 - e,
        {
            if self.contains_exponent(e) {
                count += 1;
            }
            e += 1;
        }
        count
    }

    /// The board whose cells hold `tiles`, row-major. Fails unless there are exactly 16
    /// values, each 0 or a power of two from 2 to 32768; the error names the first invalid
    /// value.
    pub fn from_tiles(tiles: &Vec<u16>) -> (r: Result<Board, Error>)
        ensures
            (tiles.len() != 16) <==> (r matches Err(e) && e.spec_kind()
                == ErrorKind::InvalidBoardRepr),
            tiles.len() == 16 && all_tile_values(tiles@) <==> r is Ok,
            r matches Ok(b) ==> b@ == cells_of_values(tiles@),
            tiles.len() == 16 && r is Err ==> exists|i: int|
                0 <= i < 16 && !is_tile_value(#[trigger] tiles@[i] as nat) && (forall|j: int|
                    0 <= j < i ==> is_tile_value(#[trigger] tiles@[j] as nat))
                    && r->Err_0.spec_kind() == ErrorKind::InvalidSquareValue(tiles@[i]),
    {
        if tiles.len() != 16 {
            return Err(Error::new(ErrorKind::InvalidBoardRepr, "a board holds exactly 16 tiles".to_owned()));
        }
        let mut b = Board::empty();
        let mut i: usize = 0;
        while i < 16
            invariant
                i <= 16,
                tiles.len() == 16,
                b@.len() == 16,
                forall|j: int| 0 <= j < i ==> is_tile_value(#[trigger] tiles@[j] as nat),
                forall|j: int| 0 <= j < i ==> #[trigger] b@[j] == exponent_of_value(tiles@[j] as nat),
            decreases 16 - i,
        {
            match exponent_of(tiles[i]) {
                None => {
                    return Err(
                        Error::new(
                            ErrorKind::InvalidSquareValue(tiles[i]),
                            "a tile value is 0 or a power of two from 2 to 32768".to_owned(),
                        ),
                    );
                },
                Some(e) => {
                    b = b.set_value_by_exponent(i as u8, e as u64);
                },
            }
            i += 1;
        }
        assert(b@ =~= cells_of_values(tiles@));
        Ok(b)
    }

    /// The tile values of the board, row-major: 0 for an empty cell.
    pub fn to_tiles(self) -> (r: Vec<u16>)
        ensures
            r@ == values_of_cells(self@),
    {
        let mut r: Vec<u16> = Vec::new();
        let mut i: u8 = 0;
        while i < 16
            invariant
                i <= 16,
                self@.len() == 16,
                r.len() == i,
                forall|j: int| 0 <= j < i ==> r@[j] == tile_value(#[trigger] self@[j]) as u16,
            decreases 16 - i,
        {
            let v = self.get_value(i);
            r.push(v);
            i += 1;
        }
        assert(r@ =~= values_of_cells(self@));
        r
    }

    /// The exponents of the cells, row-major, one at a time.
    pub fn into_iter(self) -> (r: BoardIntoIterator)
        ensures
            r.well_formed(),
            r.remaining() == self@,
    {
        let r = BoardIntoIterator { board: self, index: 0 };
        assert(self@.subrange(0, 16) =~= self@);
        r
    }

    /// The indices of the empty cells, in increasing order, one at a time.
    pub fn into_empty_tiles_iter(self) -> (r: EmptyTilesIterator)
        ensures
            r.well_formed(),
            r.remaining() == empty_cells(self@),
    {
        EmptyTilesIterator { board: self, index: 0 }
    }
}

/// Hands out the exponents of a board's cells, row-major.
pub struct BoardIntoIterator {
    board: Board,
    index: u8,
}

impl BoardIntoIterator {
    /// The index of the next cell is within the board.
    pub closed spec fn well_formed(&self) -> bool {
        self.index <= 16
    }

    /// The exponents still to come.
    pub closed spec fn remaining(&self) -> Seq<nat> {
        self.board@.subrange(self.index as int, 16)
    }

    /// The next exponent, or `None` once all sixteen are out.
    pub fn next(&mut self) -> (r: Option<u8>)
        requires
            old(self).well_formed(),
        ensures
            final(self).well_formed(),
            old(self).remaining().len() == 0 ==> r is None && final(self).remaining() == old(
                self,
            ).remaining(),
            old(self).remaining().len() > 0 ==> (r matches Some(e) && e as nat == old(
                self,
            ).remaining()[0] && final(self).remaining() == old(self).remaining().drop_first()),
    {
        if self.index == 16 {
            None
        } else {
            let e = self.board.get_exponent_value(self.index);
            self.index = self.index + 1;
            assert(self.remaining() =~= old(self).remaining().drop_first());
            Some(e)
        }
    }
}

/// Hands out the indices of a board's empty cells, in increasing order.
pub struct EmptyTilesIterator {
    board: Board,
    index: u8,
}

impl EmptyTilesIterator {
    /// The index of the next cell to look at is within the board.
    pub closed spec fn well_formed(&self) -> bool {
        self.index <= 16
    }

    /// The indices still to come.
    pub closed spec fn remaining(&self) -> Seq<nat> {
        empties_from(self.board@, self.index as int)
    }

    /// The next index of an empty cell, or `None` when there is no more.
    pub fn next(&mut self) -> (r: Option<u8>)
        requires
            old(self).well_formed(),
        ensures
            final(self).well_formed(),
            old(self).remaining().len() == 0 ==> r is None && final(self).remaining() == old(
                self,
            ).remaining(),
            old(self).remaining().len() > 0 ==> (r matches Some(i) && i as nat == old(
                self,
            ).remaining()[0] && final(self).remaining() == old(self).remaining().drop_first()),
    {
        while self.index < 16
            invariant
                self.index <= 16,
                self.board == old(self).board,
                self.remaining() == old(self).remaining(),
            decreases 16 - self.index,
        {
            let i = self.index;
            self.index = i + 1;
            if self.board.get_exponent_value(i) == 0 {
                return Some(i);
            }
        }
        None
    }
}

/// The rows slid left and right, for every packed row: a move then costs four lookups.
pub struct MoveTables {
    left: Vec<u16>,
    right: Vec<u16>,
}

impl MoveTables {
    /// Both tables hold the slid row for every packed row.
    pub closed spec fn well_formed(&self) -> bool {
        &&& self.left.len() == ROW_COUNT
        &&& self.right.len() == ROW_COUNT
        &&& forall|r: int|
            0 <= r < ROW_COUNT ==> row_cells(#[trigger] self.left[r]) == slide_left(
                row_cells(r as u16),
            )
        &&& forall|r: int|
            0 <= r < ROW_COUNT ==> row_cells(#[trigger] self.right[r]) == slide_right(
                row_cells(r as u16),
            )
    }

    /// Builds both tables.
    pub fn new() -> (r: MoveTables)
        ensures
            r.well_formed(),
    {
        MoveTables { left: build_left_moves_table(), right: build_right_moves_table() }
    }

    fn slide_rows(&self, board: Board, to_left: bool) -> (r: Board)
        requires
            self.well_formed(),
        ensures
            r@ == (if to_left {
                slide_rows_left(board@)
            } else {
                slide_rows_right(board@)
            }),
    {
        let rows = board.rows();
        let table = if to_left {
            &self.left
        } else {
            &self.right
        };
        let r = Board::from_rows(
            [
                table[rows[0] as usize],
                table[rows[1] as usize],
                table[rows[2] as usize],
                table[rows[3] as usize],
            ],
        );
        proof {
            assert(rows[0] as u16 == rows[0]);
        }
        r
    }

    /// `board.move_to(direction)`, through the tables.
    pub fn move_board(&self, board: Board, direction: Direction) -> (r: Board)
        requires
            self.well_formed(),
        ensures
            r@ == moved(board@, direction),
            r == moved_board(board, direction),
    {
        let r = match direction {
            Direction::Left => self.slide_rows(board, true),
            Direction::Right => self.slide_rows(board, false),
            Direction::Up => self.slide_rows(board.transpose(), true).transpose(),
            Direction::Down => self.slide_rows(board.transpose(), false).transpose(),
        };
        proof {
            lemma_moved_board(board, direction, r);
        }
        r
    }
}

/// A board whose cells are those of `b` after a move is the board `moved_board` names.
pub proof fn lemma_moved_board(b: Board, d: Direction, r: Board)
    requires
        r@ == moved(b@, d),
    ensures
        r == moved_board(b, d),
{
    let m = moved_board(b, d);
    assert(m@ == moved(b@, d));
    Board::lemma_view_injective(m, r);
}

/// The indices of empty cells from `i` on lie between `i` and the end of the board, and
/// point at empty cells.
pub proof fn lemma_empties_bounded(c: Seq<nat>, i: int)
    requires
        0 <= i,
    ensures
        empties_from(c, i).len() <= if i <= c.len() {
            c.len() - i
        } else {
            0
        },
        forall|k: int|
            0 <= k < empties_from(c, i).len() ==> i <= #[trigger] empties_from(c, i)[k] < c.len()
                && c[empties_from(c, i)[k] as int] == 0,
    decreases c.len() - i,
{
    if i < c.len() {
        lemma_empties_bounded(c, i + 1);
        let rest = empties_from(c, i + 1);
        if c[i] == 0 {
            assert forall|k: int| 0 <= k < empties_from(c, i).len() implies i
                <= #[trigger] empties_from(c, i)[k] < c.len() && c[empties_from(c, i)[k] as int]
                == 0 by {
                if k > 0 {
                    assert(empties_from(c, i)[k] == rest[k - 1]);
                }
            }
        }
    }
}

/// Writing a board's exponents back as tile values gives back the values it was built
/// from.
pub proof fn lemma_tiles_round_trip(v: Seq<u16>)
    requires
        v.len() == 16,
        all_tile_values(v),
    ensures
        values_of_cells(cells_of_values(v)) == v,
{
    assert forall|i: int| 0 <= i < 16 implies #[trigger] values_of_cells(cells_of_values(v))[i]
        == v[i] by {
        lemma_exponent_of_value(v[i] as nat);
    }
    assert(values_of_cells(cells_of_values(v)) =~= v);
}

/// Transposing twice gives back the board.
pub proof fn lemma_transpose_involution(b: Board)
    ensures
        transpose_cells(transpose_cells(b@)) == b@,
        forall|t: Board| #[trigger] t@ == transpose_cells(transpose_cells(b@)) ==> t == b,
{
    assert(transpose_cells(transpose_cells(b@)) =~= b@);
    assert forall|t: Board| #[trigger] t@ == transpose_cells(transpose_cells(b@)) implies t
        == b by {
        Board::lemma_view_injective(t, b);
    }
}

/// No cell is empty and no two neighbouring tiles of a row are equal.
pub open spec fn rows_stuck(c: Seq<nat>) -> bool {
    &&& c.len() == 16
    &&& forall|i: int| 0 <= i < 16 ==> #[trigger] c[i] != 0
    &&& forall|k: int, j: int|
        0 <= k < 4 && 0 <= j < 3 ==> #[trigger] c[4 * k + j] != c[4 * k + j + 1]
}

/// A full board on which no two neighbouring tiles, in a row or a column, are equal.
pub open spec fn is_stuck(c: Seq<nat>) -> bool {
    rows_stuck(c) && rows_stuck(transpose_cells(c))
}

proof fn lemma_row_unmoved(c: Seq<nat>, k: int)
    requires
        rows_stuck(c),
        0 <= k < 4,
    ensures
        slide_left(row_of(c, k)) == row_of(c, k),
        slide_right(row_of(c, k)) == row_of(c, k),
{
    let r = row_of(c, k);
    assert(r[0] == c[4 * k + 0] && r[1] == c[4 * k + 1] && r[2] == c[4 * k + 2] && r[3] == c[4 * k + 3]);
    assert(c[4 * k + 0] != c[4 * k + 0 + 1]);
    assert(c[4 * k + 1] != c[4 * k + 1 + 1]);
    assert(c[4 * k + 2] != c[4 * k + 2 + 1]);
    assert(packed_to_front(r));
    assert(no_equal_neighbours(r));
    assert(packed_to_front(r.reverse()));
    assert(no_equal_neighbours(r.reverse()));
    lemma_terminal_line_unchanged(r);
}

proof fn lemma_rows_unmoved(c: Seq<nat>)
    requires
        rows_stuck(c),
    ensures
        slide_rows_left(c) == c,
        slide_rows_right(c) == c,
{
    lemma_row_unmoved(c, 0);
    lemma_row_unmoved(c, 1);
    lemma_row_unmoved(c, 2);
    lemma_row_unmoved(c, 3);
    assert(slide_rows_left(c) =~= c);
    assert(slide_rows_right(c) =~= c);
}

/// On a stuck board no move changes anything.
pub proof fn lemma_stuck_board_unmoved(b: Board, d: Direction)
    requires
        is_stuck(b@),
    ensures
        moved(b@, d) == b@,
        moved_board(b, d) == b,
{
    lemma_rows_unmoved(b@);
    lemma_rows_unmoved(transpose_cells(b@));
    assert(transpose_cells(transpose_cells(b@)) =~= b@);
    lemma_moved_board(b, d, b);
}

/// Line `k` of `c` that a move in direction `d` slides, read from the edge it slides
/// towards: rows for `Left` and `Right`, columns for `Up` and `Down`.
pub open spec fn line_towards(c: Seq<nat>, d: Direction, k: int) -> Seq<nat> {
    match d {
        Direction::Left => row_of(c, k),
        Direction::Right => row_of(c, k).reverse(),
        Direction::Up => column_of(c, k),
        Direction::Down => column_of(c, k).reverse(),
    }
}

/// Every line of `c`, read from the edge of direction `d`, has its tiles before its empty
/// cells and no two equal neighbouring tiles.
pub open spec fn lines_settled(c: Seq<nat>, d: Direction) -> bool {
    forall|k: int|
        0 <= k < 4 ==> packed_to_front(#[trigger] line_towards(c, d, k)) && no_equal_neighbours(
            line_towards(c, d, k),
        )
}

proof fn lemma_settled_line(c: Seq<nat>, d: Direction, k: int)
    requires
        c.len() == 16,
        lines_settled(c, d),
        0 <= k < 4,
    ensures
        d == Direction::Left ==> slide_left(row_of(c, k)) == row_of(c, k),
        d == Direction::Right ==> slide_right(row_of(c, k)) == row_of(c, k),
        d == Direction::Up ==> slide_left(row_of(transpose_cells(c), k)) == row_of(
            transpose_cells(c),
            k,
        ),
        d == Direction::Down ==> slide_right(row_of(transpose_cells(c), k)) == row_of(
            transpose_cells(c),
            k,
        ),
{
    let l = line_towards(c, d, k);
    assert(packed_to_front(l) && no_equal_neighbours(l));
    assert(row_of(transpose_cells(c), k) =~= column_of(c, k));
    match d {
        Direction::Left => lemma_terminal_line_unchanged(row_of(c, k)),
        Direction::Right => lemma_terminal_line_unchanged(row_of(c, k)),
        Direction::Up => lemma_terminal_line_unchanged(column_of(c, k)),
        Direction::Down => lemma_terminal_line_unchanged(column_of(c, k)),
    }
}

/// A move towards an edge against which every line is already packed, with no two equal
/// neighbouring tiles, leaves the board as it is: that direction is not a legal move.
pub proof fn lemma_settled_board_unmoved(b: Board, d: Direction)
    requires
        lines_settled(b@, d),
    ensures
        moved(b@, d) == b@,
        moved_board(b, d) == b,
{
    let c = b@;
    let t = transpose_cells(c);
    lemma_settled_line(c, d, 0);
    lemma_settled_line(c, d, 1);
    lemma_settled_line(c, d, 2);
    lemma_settled_line(c, d, 3);
    assert(transpose_cells(t) =~= c);
    match d {
        Direction::Left => assert(slide_rows_left(c) =~= c),
        Direction::Right => assert(slide_rows_right(c) =~= c),
        Direction::Up => assert(slide_rows_left(t) =~= t),
        Direction::Down => assert(slide_rows_right(t) =~= t),
    }
    lemma_moved_board(b, d, b);
}

} // verus!
