use play_2048::board::Board;
use play_2048::evaluators::{
    AlignmentEvaluator, BoardEvaluator, CombinedBoardEvaluator, EmptyTileEvaluator,
    get_statistics, MaxTileEvaluator, MonotonicityEvaluator, PrecomputedBoardEvaluator, RowColumnEvaluator,
    RowHeuristic,
};

fn board_of(values: Vec<u16>) -> Board {
    Board::from_tiles(&values).unwrap()
}

#[test]
fn test_debug() {
    let evaluator = CombinedBoardEvaluator::default()
        .combine(
            RowHeuristic::Monotonicity(MonotonicityEvaluator {
                gameover_penalty: -200000,
                monotonicity_power: 4,
            }),
            1,
        )
        .combine(
            RowHeuristic::EmptyTiles(EmptyTileEvaluator {
                gameover_penalty: 0,
                power: 1,
            }),
            200,
        )
        .combine(
            RowHeuristic::Alignment(AlignmentEvaluator {
                gameover_penalty: 0,
                power: 1,
            }),
            500,
        );
    println!("evaluator.stats = {:?}", get_statistics(&evaluator));
}

#[test]
fn statistics_of_simple_heuristics() {
    let stats = get_statistics(&EmptyTileEvaluator { gameover_penalty: 0, power: 1 });
    // each cell is empty in one row out of 16: the mean is 4 / 16, rounded down
    assert_eq!((4, 0, 0), (stats.max_value, stats.min_value, stats.mean));
    let stats = get_statistics(&AlignmentEvaluator { gameover_penalty: 0, power: 1 });
    assert_eq!((3, 0), (stats.max_value, stats.min_value));
    let stats = get_statistics(&MonotonicityEvaluator { gameover_penalty: 0, monotonicity_power: 1 });
    assert_eq!(0, stats.max_value);
    assert!(stats.mean < 0);
    assert!(stats.min_value <= stats.mean);
}

#[test]
fn test_empty_tile_evaluator() {
    // Given
    let vec_board = vec![
        0, 2, 0, 0,
        0, 256, 0, 512,
        0, 0, 1024, 4,
        8, 2, 16, 64
    ];
    let board = board_of(vec_board);
    let evaluator = EmptyTileEvaluator {
        gameover_penalty: 0,
        power: 2,
    };

    // When
    assert_eq!(4, evaluator.evaluate_row(board.get_row(1)));
}

#[test]
fn test_alignment_evaluator() {
    // Given
    let vec_board = vec![
        0, 2, 0, 0,
        16, 16, 256, 256,
        0, 8, 0, 8,
        8, 2, 16, 64
    ];
    let board = board_of(vec_board);
    let evaluator = AlignmentEvaluator {
        gameover_penalty: 0,
        power: 2,
    };

    // When / Then
    assert_eq!(0, evaluator.evaluate_row(board.get_row(0)));
    assert_eq!(4, evaluator.evaluate_row(board.get_row(1)));
    assert_eq!(0, evaluator.evaluate_row(board.get_row(2)));
}

#[test]
fn test_monotonicity_evaluator() {
    // Given
    let vec_board = vec![
        2, 4, 2, 4,
        8, 256, 0, 512,
        0, 0, 1024, 4,
        8, 2, 16, 64,
    ];
    let board = board_of(vec_board);
    let evaluator = MonotonicityEvaluator {
        gameover_penalty: -300,
        monotonicity_power: 2,
    };

    // When
    let row_inversions_1 = evaluator.evaluate_row(board.get_row(1));
    let row_inversions_2 = evaluator.evaluate_row(board.get_row(2));
    let col_inversions = evaluator.evaluate_row(board.get_column(1));

    // Then
    assert_eq!(-64, row_inversions_1);
    assert_eq!(-96, row_inversions_2);
    assert_eq!(-61, col_inversions);
}

#[test]
fn test_precomputed_inversion_evaluator() {
    // Given
    let vec_board = vec![
        2, 4, 2, 4,
        8, 256, 0, 512,
        0, 0, 1024, 4,
        8, 2, 16, 64,
    ];
    let board = board_of(vec_board);
    let evaluator = PrecomputedBoardEvaluator::new(MonotonicityEvaluator::default());

    // When
    let evaluation = evaluator.evaluate(board);

    // Then
    assert_eq!(MonotonicityEvaluator::default().evaluate(board), evaluation);
}

#[test]
fn test_combined_evaluator() {
    // Given
    let vec_board = vec![
        2, 4, 2, 4,
        8, 0, 0, 512,
        1024, 2, 16, 0,
        8, 2, 16, 64,
    ];
    let board = board_of(vec_board);
    let evaluator = CombinedBoardEvaluator::default()
        .combine(
            RowHeuristic::EmptyTiles(EmptyTileEvaluator {
                gameover_penalty: 0,
                power: 2,
            }),
            2,
        )
        .combine(
            RowHeuristic::Monotonicity(MonotonicityEvaluator {
                gameover_penalty: 0,
                monotonicity_power: 2,
            }),
            1,
        );

    // When
    let evaluation_1 = evaluator.evaluate_row(board.get_row(1));
    let evaluation_2 = evaluator.evaluate_row(board.get_row(2));

    // Then
    assert_eq!(-9 + 2 * 4, evaluation_1);
    assert_eq!(-15 + 2 * 1, evaluation_2);
}

#[test]
fn whole_board_sums_rows_and_columns() {
    let board = board_of(vec![
        0, 2, 0, 0,
        0, 256, 0, 512,
        0, 0, 1024, 4,
        8, 2, 16, 64
    ]);
    let evaluator = EmptyTileEvaluator { gameover_penalty: 0, power: 1 };
    // every empty cell counts once in its row and once in its column
    assert_eq!(14, evaluator.evaluate(board));
    assert_eq!(14, PrecomputedBoardEvaluator::new(EmptyTileEvaluator { gameover_penalty: 0, power: 1 }).evaluate(board));
}

#[test]
fn precomputed_combined_matches_direct() {
    let make = || {
        CombinedBoardEvaluator::default()
            .combine(
                RowHeuristic::Monotonicity(MonotonicityEvaluator { gameover_penalty: -200000, monotonicity_power: 4 }),
                1,
            )
            .combine(RowHeuristic::EmptyTiles(EmptyTileEvaluator { gameover_penalty: 0, power: 1 }), 200)
            .combine(RowHeuristic::Alignment(AlignmentEvaluator { gameover_penalty: 5, power: 1 }), 500)
    };
    let precomputed = PrecomputedBoardEvaluator::new(make());
    let direct = make();
    for values in [
        vec![2, 4, 2, 4, 8, 0, 0, 512, 1024, 2, 16, 0, 8, 2, 16, 64],
        vec![0; 16],
        vec![32768, 2, 32768, 2, 4, 4, 4, 4, 0, 0, 0, 8, 16, 0, 16, 0],
    ] {
        let board = board_of(values);
        assert_eq!(direct.evaluate(board), precomputed.evaluate(board));
    }
    assert_eq!(-199995, BoardEvaluator::gameover_penalty(&precomputed));
    assert_eq!(-199995, BoardEvaluator::gameover_penalty(&direct));
}

#[test]
fn monotonic_rows_score_zero() {
    let evaluator = MonotonicityEvaluator { gameover_penalty: 0, monotonicity_power: 2 };
    // [2, 4, 8, 16] and [16, 8, 4, 0]
    assert_eq!(0, evaluator.evaluate_row(0x1234));
    assert_eq!(0, evaluator.evaluate_row(0x4320));
    // [2, 16, 4, 8]: falls 16 - 4 = 12 rightwards, rises (16 - 1) + (9 - 4) = 20
    assert_eq!(-12, evaluator.evaluate_row(0x1423));
}

#[test]
fn default_heuristics() {
    let e = EmptyTileEvaluator::default();
    assert_eq!((0, 1), (e.gameover_penalty, e.power));
    let a = AlignmentEvaluator::default();
    assert_eq!((0, 2), (a.gameover_penalty, a.power));
    let m = MonotonicityEvaluator::default();
    assert_eq!((-300, 2), (m.gameover_penalty, m.monotonicity_power));
    // [0, 0, 0, 0] has four empty cells, three aligned pairs of empty cells do not count
    assert_eq!(4, e.evaluate_row(0));
    assert_eq!(0, a.evaluate_row(0));
    // [2, 2, 2, 2]
    assert_eq!(9, a.evaluate_row(0x1111));
}

#[test]
fn max_tile_evaluator_scores_largest_tile() {
    let evaluator = MaxTileEvaluator { gameover_penalty: -7 };
    let board = board_of(vec![0, 2, 0, 2048, 0, 256, 0, 512, 0, 0, 1024, 4, 8, 2, 16, 64]);
    assert_eq!(2048, evaluator.evaluate(board));
    assert_eq!(-7, evaluator.gameover_penalty());
}

#[test]
fn high_powers_stay_exact() {
    let monotonicity = MonotonicityEvaluator { gameover_penalty: 0, monotonicity_power: 7 };
    // [32768, 0, 32768, 0]: falls 2 * 15^7 rightwards, rises 15^7
    assert_eq!(-170_859_375, monotonicity.evaluate_row(0xF0F0));
    let empty = EmptyTileEvaluator { gameover_penalty: 0, power: 29 };
    assert_eq!(288_230_376_151_711_744, empty.evaluate_row(0));
    let alignment = AlignmentEvaluator { gameover_penalty: 0, power: 37 };
    assert_eq!(450_283_905_890_997_363, alignment.evaluate_row(0x1111));
}
