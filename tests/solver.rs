use play_2048::board::{Board, Direction};
use play_2048::evaluators::{MaxTileEvaluator, MonotonicityEvaluator, PrecomputedBoardEvaluator};
use play_2048::solver::SolverBuilder;
use play_2048::strategy::Strategy;

fn board_of(values: Vec<u16>) -> Board {
    Board::from_tiles(&values).unwrap()
}

#[test]
fn solver_test_next_best_move() {
    // Given
    let mut solver = SolverBuilder::default()
        .board_evaluator(MaxTileEvaluator { gameover_penalty: 0 })
        .base_max_search_depth(2)
        .build();

    let board: Board = board_of(vec![
        4, 4, 0, 4,
        16, 0, 0, 2,
        0, 8, 0, 16,
        0, 8, 0, 16,
    ]);

    // When
    let direction = solver.next_best_move(board);

    // Then
    assert_eq!(Some(Direction::Down), direction);
}

#[test]
fn strategy_test_next_best_move() {
    // Given
    let mut strategy = Strategy::new(MaxTileEvaluator { gameover_penalty: 0 }, 0, 2, 0, 0);

    let board: Board = board_of(vec![
        4, 4, 0, 4,
        16, 0, 0, 2,
        0, 8, 0, 16,
        0, 8, 0, 16,
    ]);

    // When
    let direction = strategy.next_best_move(board);

    // Then: with seven empty cells the depth is one; every move then reaches a 32 tile
    // (the 16s merge on the next move) and the tie goes to the first direction.
    assert_eq!(Some(Direction::Left), direction);
}

#[test]
fn stuck_board_has_no_move() {
    let board = board_of(vec![
        2, 4, 2, 4,
        4, 2, 4, 2,
        2, 4, 2, 4,
        4, 2, 4, 2,
    ]);
    let mut solver = SolverBuilder::default().build();
    assert_eq!(None, solver.next_best_move(board));
    let mut strategy = Strategy::new(MaxTileEvaluator { gameover_penalty: 0 }, 100_000, 3, -300, 1000);
    assert_eq!(None, strategy.next_best_move(board));
}

#[test]
fn full_board_with_a_merge_has_a_move() {
    let board = board_of(vec![
        2, 4, 2, 4,
        4, 2, 4, 2,
        2, 4, 2, 4,
        4, 2, 4, 4,
    ]);
    let mut solver = SolverBuilder::default().build();
    let d = solver.next_best_move(board);
    assert!(d == Some(Direction::Left) || d == Some(Direction::Right) || d == Some(Direction::Up) || d == Some(Direction::Down));
    assert_ne!(board, board.move_to(d.unwrap()));
}

#[test]
fn repeated_calls_agree() {
    let board = board_of(vec![
        2, 0, 8, 0,
        4, 16, 0, 2,
        0, 2, 64, 4,
        8, 0, 2, 2,
    ]);
    let mut solver = SolverBuilder::default()
        .board_evaluator(PrecomputedBoardEvaluator::new(MonotonicityEvaluator::default()))
        .proba_4(100_000)
        .min_branch_proba(1000)
        .build();
    let first = solver.next_best_move(board);
    assert!(first.is_some());
    assert_eq!(first, solver.next_best_move(board));
    assert_eq!(first, solver.next_best_move(board));
}

#[test]
fn single_legal_move_is_chosen() {
    // only Right changes this board
    let board = board_of(vec![
        2, 4, 8, 0,
        4, 8, 16, 32,
        8, 16, 32, 64,
        16, 32, 64, 128,
    ]);
    let mut solver = SolverBuilder::default().base_max_search_depth(1).build();
    assert_eq!(Some(Direction::Right), solver.next_best_move(board));
}

#[test]
fn search_depth_grows_with_distinct_tiles() {
    let solver = SolverBuilder::default().base_max_search_depth(2).build();
    // eight distinct tiles up to 256: 8 - 7 = 1, the base depth wins
    let board = board_of(vec![2, 4, 8, 16, 32, 64, 128, 256, 0, 0, 0, 0, 0, 0, 0, 0]);
    assert_eq!(2, solver.compute_max_depth(board));
    // eleven distinct tiles up to 2048: 11 - 5 = 6
    let board = board_of(vec![2, 4, 8, 16, 32, 64, 128, 256, 512, 1024, 2048, 0, 0, 0, 0, 0]);
    assert_eq!(6, solver.compute_max_depth(board));
}
