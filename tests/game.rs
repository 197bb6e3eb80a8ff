use play_2048::board::{Board, Direction};
use play_2048::game::{spawn_tile, GameBuilder};

fn board_of(values: Vec<u16>) -> Board {
    Board::from_tiles(&values).unwrap()
}

#[test]
fn spawn_places_tile_in_chosen_empty_cell() {
    let board = board_of(vec![0, 2, 0, 2048, 0, 256, 0, 512, 0, 0, 1024, 4, 8, 2, 16, 64]);
    // empty cells: 0, 2, 4, 6, 8, 9; slot 3 is cell 6; draw below the probability gives a 4
    let spawned = spawn_tile(board, 200_000, 199_999, 3);
    assert_eq!(board.set_value(6, 4), spawned);
    // slot 8 wraps to the third empty cell, cell 4; draw above gives a 2
    let spawned = spawn_tile(board, 200_000, 200_000, 8);
    assert_eq!(board.set_value(4, 2), spawned);
}

#[test]
fn spawn_on_full_board_does_nothing() {
    let board = board_of(vec![2; 16]);
    assert_eq!(board, spawn_tile(board, 0, 0, 5));
}

#[test]
fn game_plays_and_spawns() {
    let board = board_of(vec![0, 2, 0, 0, 0, 0, 0, 0, 0, 0, 0, 0, 0, 0, 0, 0]);
    let mut game = GameBuilder::default().initial_board(board).proba_4(100_000).build();
    assert_eq!(board, game.board);
    assert_eq!(100_000, game.proba_4);
    game.play(Direction::Left);
    assert_eq!(board.move_to(Direction::Left), game.board);
    game.populate_new_tile();
    assert_eq!(14, game.board.count_empty_tiles());
    assert_eq!(2, game.board.get_value(0));
}

#[test]
fn new_game_starts_with_one_tile() {
    let game = GameBuilder::default().build();
    assert_eq!(15, game.board.count_empty_tiles());
    let v = game.board.max_value();
    assert!(v == 2 || v == 4);
}

#[test]
fn full_board_gets_no_tile() {
    let board = board_of(vec![2, 4, 2, 4, 4, 2, 4, 2, 2, 4, 2, 4, 4, 2, 4, 2]);
    let mut game = GameBuilder::default().initial_board(board).build();
    game.populate_new_tile();
    assert_eq!(board, game.board);
}
