//! A game in progress: a board, and the probability that a spawned tile is a 4.
use crate::board::{empty_cells, lemma_empties_bounded, moved_board, with_cell, Board, Direction};
use crate::solver::PROBA_SCALE;
use rand::rngs::ThreadRng;
use rand::Rng;
use vstd::prelude::*;

verus! {

/// rand's per-thread random generator, held by a game (opaque here).
#[verifier::external_type_specification]
#[verifier::external_body]
pub struct ExThreadRng(rand::rngs::ThreadRng);

/// Relies on `rand::thread_rng`: a handle on the thread's random generator.
#[verifier::external_body]
fn new_rng() -> ThreadRng {
    rand::thread_rng()
}

/// Relies on `Rng::gen_range` over `0..bound`: a value below `bound`. The range must not be
/// empty (it panics then).
#[verifier::external_body]
fn draw_below(rng: &mut ThreadRng, bound: u64) -> (r: u64)
    requires
        bound > 0,
    ensures
        r < bound,
{
    rng.gen_range(0..bound)
}

/// `b` with a new tile in its `slot % n`-th empty cell (`n` empty cells): a 4 when
/// `draw < proba_4`, else a 2. A full board is left as it is.
pub open spec fn spawned(b: Board, proba_4: nat, draw: nat, slot: nat) -> Board {
    let cells = empty_cells(b@);
    if cells.len() == 0 {
        b
    } else {
        with_cell(
            b,
            cells[(slot % cells.len()) as int] as u8,
            if draw < proba_4 {
                2
            } else {
                1
            },
        )
    }
}

/// Places a new tile: a 4 when `draw < proba_4`, else a 2, in the `slot % n`-th of the `n`
/// empty cells. A full board is returned as it is.
pub fn spawn_tile(board: Board, proba_4: u64, draw: u64, slot: u64) -> (r: Board)
    ensures
        r == spawned(board, proba_4 as nat, draw as nat, slot as nat),
{
    let empty_tiles = board.empty_tiles_indices();
    let n = empty_tiles.len();
    if n == 0 {
        return board;
    }
    proof {
        lemma_empties_bounded(board@, 0);
    }
    let k = (slot % (n as u64)) as usize;
    let idx = empty_tiles[k];
    assert(empty_cells(board@)[k as int] == idx as nat);
    let exponent: u64 = if draw < proba_4 {
        2
    } else {
        1
    };
    board.set_value_by_exponent(idx, exponent)
}

/// A board being played, with the probability (in millionths) that a new tile is a 4.
pub struct Game {
    pub board: Board,
    pub proba_4: u64,
    rng: ThreadRng,
}

impl Game {
    /// The board being played.
    pub closed spec fn current_board(&self) -> Board {
        self.board
    }

    /// The probability, in millionths, that a new tile is a 4.
    pub closed spec fn spawn_proba_4(&self) -> u64 {
        self.proba_4
    }

    /// Moves the tiles of the board in `direction`; a move that changes nothing is allowed.
    pub fn play(&mut self, direction: Direction)
        ensures
            final(self).current_board() == moved_board(old(self).current_board(), direction),
            final(self).spawn_proba_4() == old(self).spawn_proba_4(),
    {
        self.board = self.board.move_to(direction);
    }

    /// Places a 2 or a 4 (a 4 with probability `proba_4`) in an empty cell picked uniformly
    /// at random. Does nothing on a full board.
    pub fn populate_new_tile(&mut self)
        ensures
            final(self).spawn_proba_4() == old(self).spawn_proba_4(),
            exists|draw: nat, slot: nat|
                draw < PROBA_SCALE && #[trigger] spawned(
                    old(self).current_board(),
                    old(self).spawn_proba_4() as nat,
                    draw,
                    slot,
                ) == final(self).current_board(),
    {
        let draw = draw_below(&mut self.rng, PROBA_SCALE);
        let n = self.board.count_empty_tiles();
        if n == 0 {
            assert(spawned(old(self).current_board(), old(self).spawn_proba_4() as nat, draw as nat, 0)
                == self.current_board());
            return;
        }
        let slot = draw_below(&mut self.rng, n as u64);
        self.board = spawn_tile(self.board, self.proba_4, draw, slot);
        assert(spawned(
            old(self).current_board(),
            old(self).spawn_proba_4() as nat,
            draw as nat,
            slot as nat,
        ) == self.current_board());
    }
}

/// Configuration of a `Game`.
pub struct GameBuilder {
    /// The first board; a board with a single random tile when `None`
    pub initial_board: Option<Board>,
    /// Probability, in millionths, that a new tile is a 4 (default 200 000: 0.2)
    pub proba_4: u64,
}

impl Default for GameBuilder {
    fn default() -> (r: Self)
        ensures
            r.initial_board is None,
            r.proba_4 == 200_000,
    {
        GameBuilder { initial_board: None, proba_4: 200_000 }
    }
}

impl GameBuilder {
    /// Sets the first board.
    pub fn initial_board(self, board: Board) -> (r: Self)
        ensures
            r.initial_board == Some(board),
            r.proba_4 == self.proba_4,
    {
        GameBuilder { initial_board: Some(board), ..self }
    }

    /// Sets the probability, in millionths, that a new tile is a 4.
    pub fn proba_4(self, proba: u64) -> (r: Self)
        ensures
            r.initial_board == self.initial_board,
            r.proba_4 == proba,
    {
        GameBuilder { proba_4: proba, ..self }
    }

    /// The game: on the first board, or on an empty board with one new tile.
    pub fn build(self) -> (r: Game)
        ensures
            r.spawn_proba_4() == self.proba_4,
            self.initial_board matches Some(b) ==> r.current_board() == b,
            self.initial_board is None ==> exists|draw: nat, slot: nat|
                draw < PROBA_SCALE && #[trigger] spawned(
                    Board { state: 0 },
                    self.proba_4 as nat,
                    draw,
                    slot,
                ) == r.current_board(),
    {
        let mut rng = new_rng();
        let board = match self.initial_board {
            Some(b) => b,
            None => {
                let draw = draw_below(&mut rng, PROBA_SCALE);
                let slot = draw_below(&mut rng, 16);
                let b = spawn_tile(Board { state: 0 }, self.proba_4, draw, slot);
                assert(spawned(Board { state: 0 }, self.proba_4 as nat, draw as nat, slot as nat) == b);
                b
            },
        };
        Game { board, proba_4: self.proba_4, rng }
    }
}

} // verus!
