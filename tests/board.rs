use play_2048::board::{Board, Direction, MoveTables};
use play_2048::error::ErrorKind;

fn board_of(values: Vec<u16>) -> Board {
    Board::from_tiles(&values).unwrap()
}

#[test]
fn should_convert_vec_to_board() {
    // Given
    let vec_board: Vec<u16> = vec![
        0, 2, 0, 0,
        32768, 0, 0, 2,
        0, 0, 16, 4,
        8, 2, 16, 64
    ];

    // When
    let board = Board::from_tiles(&vec_board).unwrap();

    // Then
    let into_vec_board: Vec<u16> = board.to_tiles();
    assert_eq!(vec_board, into_vec_board);
}

#[test]
fn should_iterate_over_exponents() {
    // Given
    let vec_board: Vec<u16> = vec![
        0, 2, 0, 0,
        32768, 0, 0, 2,
        0, 0, 16, 4,
        8, 2, 16, 64
    ];
    let board = board_of(vec_board.clone());

    // When
    let mut exponents: Vec<u8> = Vec::new();
    let mut it = board.into_iter();
    while let Some(e) = it.next() {
        exponents.push(e);
    }

    // Then
    let expected_exponents = vec![
        0, 1, 0, 0,
        15, 0, 0, 1,
        0, 0, 4, 2,
        3, 1, 4, 6
    ];
    assert_eq!(expected_exponents, exponents);
}

#[test]
fn should_use_binary_representation() {
    // Given
    let board_values = vec![
        0, 0, 0, 0,
        0, 0, 0, 0,
        0, 0, 4, 0,
        0, 16, 0, 8
    ];

    // When
    let board = board_of(board_values);

    // Then
    let board_repr: u64 =
        2u64.pow(0 + 0) + 2u64.pow(1 + 0) + 2u64.pow(2 + 8) + 2u64.pow(1 + 20);
    assert_eq!(board_repr as u64, board.state);
}

#[test]
fn should_get_value() {
    // Given
    let board = board_of(vec![
        0, 4, 0, 2,
        2, 0, 4, 0,
        4, 2, 0, 512,
        16, 8, 32, 32,
    ]);

    // When / Then
    assert_eq!(512, board.get_value(11));
}

#[test]
fn should_get_exponent_value() {
    // Given
    let board = board_of(vec![
        0, 4, 0, 2,
        2, 0, 4, 0,
        4, 2, 0, 512,
        16, 8, 32, 32,
    ]);

    // When / Then
    assert_eq!(9, board.get_exponent_value(11));
}

#[test]
fn should_get_rows() {
    // Given
    let board = board_of(vec![
        0, 4, 0, 2,
        2, 0, 4, 0,
        4, 2, 0, 512,
        16, 8, 32, 32,
    ]);

    // When
    let rows = board.rows();

    // Then
    let expected_rows: [u16; 4] = [0x0201, 0x1020, 0x2109, 0x4355];
    assert_eq!(expected_rows, rows);
}

#[test]
fn should_get_columns() {
    // Given
    let board = board_of(vec![
        0, 2, 4, 16,
        4, 0, 2, 8,
        0, 4, 0, 32,
        2, 0, 512, 32,
    ]);

    // When
    let columns = board.columns();

    // Then
    let expected_rows: [u16; 4] = [0x0201, 0x1020, 0x2109, 0x4355];
    assert_eq!(expected_rows, columns);
}

#[test]
fn should_set_value() {
    // Given
    let board = board_of(vec![
        0, 4, 0, 2,
        2, 0, 4, 0,
        4, 2, 0, 512,
        16, 8, 32, 32,
    ]);

    // When
    let board = board.set_value(5, 32).set_value(8, 64);

    // Then
    let expected_board = board_of(vec![
        0, 4, 0, 2,
        2, 32, 4, 0,
        64, 2, 0, 512,
        16, 8, 32, 32,
    ]);
    assert_eq!(expected_board, board);
}

#[test]
fn should_set_value_by_exponent() {
    // Given
    let board = board_of(vec![
        0, 4, 0, 2,
        2, 0, 4, 0,
        4, 2, 0, 512,
        16, 8, 32, 32,
    ]);

    // When
    let board = board
        .set_value_by_exponent(5, 5)
        .set_value_by_exponent(8, 6);

    // Then
    let expected_board = board_of(vec![
        0, 4, 0, 2,
        2, 32, 4, 0,
        64, 2, 0, 512,
        16, 8, 32, 32,
    ]);
    assert_eq!(expected_board, board);
}

#[test]
fn should_move_left() {
    // Given
    let board = board_of(vec![
        0, 0, 0, 2,
        2, 2, 4, 0,
        4, 2, 8, 512,
        16, 16, 32, 32,
    ]);

    // When
    let left_board = board.into_left();

    // Then
    let expected_board = board_of(vec![
        2, 0, 0, 0,
        4, 4, 0, 0,
        4, 2, 8, 512,
        32, 64, 0, 0,
    ]);
    assert_eq!(expected_board, left_board);
}

#[test]
fn should_move_right() {
    // Given
    let board = board_of(vec![
        512, 8, 2, 4,
        2, 0, 0, 0,
        0, 4, 2, 2,
        32, 32, 16, 16,
    ]);

    // When
    let right_board = board.into_right();

    // Then
    let expected_board = board_of(vec![
        512, 8, 2, 4,
        0, 0, 0, 2,
        0, 0, 4, 4,
        0, 0, 64, 32,
    ]);
    assert_eq!(expected_board, right_board);
}

#[test]
fn should_move_up() {
    // Given
    let board = board_of(vec![
        0, 2, 512, 16,
        0, 2, 8, 16,
        0, 4, 2, 32,
        2, 0, 4, 32,
    ]);

    // When
    let up_board = board.into_up();

    // Then
    let expected_board = board_of(vec![
        2, 4, 512, 32,
        0, 4, 8, 64,
        0, 0, 2, 0,
        0, 0, 4, 0,
    ]);
    assert_eq!(expected_board, up_board);
}

#[test]
fn should_move_down() {
    // Given
    let board = board_of(vec![
        2, 0, 512, 32,
        0, 4, 8, 32,
        0, 2, 2, 16,
        0, 2, 4, 16,
    ]);

    // When
    let down_board = board.into_down();

    // Then
    let expected_board = board_of(vec![
        0, 0, 512, 0,
        0, 0, 8, 0,
        0, 4, 2, 64,
        2, 4, 4, 32,
    ]);
    assert_eq!(expected_board, down_board);
}

#[test]
fn should_move_with_high_values() {
    // Given
    let board = board_of(vec![
        0, 0, 0, 0,
        0, 0, 16384, 0,
        0, 0, 16384, 0,
        0, 0, 0, 0,
    ]);

    // When
    let down_board = board.into_down();

    // Then
    let expected_board = board_of(vec![
        0, 0, 0, 0,
        0, 0, 0, 0,
        0, 0, 0, 0,
        0, 0, 32768, 0,
    ]);
    assert_eq!(expected_board, down_board);
}

#[test]
fn should_get_max_value() {
    // Given
    let vec_board = vec![
        0, 2, 0, 2048,
        0, 256, 0, 512,
        0, 0, 1024, 4,
        8, 2, 16, 64
    ];
    let board = board_of(vec_board);

    // When
    let max_value = board.max_value();

    // Then
    assert_eq!(2048, max_value);
}

#[test]
fn should_get_empty_tiles() {
    // Given
    let vec_board = vec![
        0, 2, 0, 2048,
        0, 256, 0, 512,
        0, 0, 1024, 4,
        8, 2, 16, 64
    ];
    let board = board_of(vec_board);

    // When
    let empty_tiles: Vec<u8> = board.empty_tiles_indices();
    assert_eq!(vec![0, 2, 4, 6, 8, 9], empty_tiles);
}

#[test]
fn should_count_empty_tiles() {
    // Given
    let vec_board = vec![
        0, 2, 0, 2048,
        0, 256, 0, 512,
        0, 0, 1024, 4,
        8, 2, 16, 64
    ];
    let board = board_of(vec_board);

    // When
    let nb_empty_tiles = board.count_empty_tiles();
    assert_eq!(6, nb_empty_tiles);
}

#[test]
fn should_count_distinct_tiles() {
    // Given
    let vec_board = vec![
        0, 2, 0, 2048,
        0, 16, 0, 512,
        0, 0, 8, 4,
        8, 2, 16, 64
    ];
    let board = board_of(vec_board);

    // When
    let distinct_tiles = board.count_distinct_tiles();
    assert_eq!(7, distinct_tiles);
}

#[test]
fn should_display_board_for_debug() {
    // Given
    let vec_board = vec![
        8192, 32, 16384, 32768,
        4096, 256, 0, 512,
        2048, 128, 1024, 4,
        8, 2, 16, 64
    ];
    let board = board_of(vec_board);

    // When
    let display = board.to_grid_string();

    // Then
    let expected_display = r#"
╔═══════╦═══════╦═══════╦═══════╗
║  8192 ║    32 ║ 16384 ║ 32768 ║
╠═══════╬═══════╬═══════╬═══════╣
║  4096 ║   256 ║       ║   512 ║
╠═══════╬═══════╬═══════╬═══════╣
║  2048 ║   128 ║  1024 ║     4 ║
╠═══════╬═══════╬═══════╬═══════╣
║     8 ║     2 ║    16 ║    64 ║
╚═══════╩═══════╩═══════╩═══════╝
"#;
    assert_eq!(expected_display, display);
}

#[test]
fn should_display_board() {
    // Given
    let vec_board = vec![
        8192, 32, 16384, 32768,
        4096, 256, 0, 512,
        2048, 128, 1024, 4,
        8, 2, 16, 64
    ];
    let board = board_of(vec_board);

    // When / Then
    board.to_grid_string();
}

#[test]
fn board_needs_sixteen_values() {
    let err = Board::from_tiles(&vec![0; 15]).unwrap_err();
    assert_eq!(ErrorKind::InvalidBoardRepr, err.kind());
    let err = Board::from_tiles(&vec![2; 17]).unwrap_err();
    assert_eq!(ErrorKind::InvalidBoardRepr, err.kind());
}

#[test]
fn board_rejects_first_invalid_value() {
    let mut values = vec![2u16; 16];
    values[3] = 3;
    values[7] = 65535;
    let err = Board::from_tiles(&values).unwrap_err();
    assert_eq!(ErrorKind::InvalidSquareValue(3), err.kind());
    assert!(!err.message().is_empty());
    values[3] = 1;
    let err = Board::from_tiles(&values).unwrap_err();
    assert_eq!(ErrorKind::InvalidSquareValue(1), err.kind());
}

#[test]
fn tiles_round_trip() {
    let values: Vec<u16> = vec![
        0, 2, 4, 8, 16, 32, 64, 128, 256, 512, 1024, 2048, 4096, 8192, 16384, 32768,
    ];
    assert_eq!(values, board_of(values.clone()).to_tiles());
    let empty = vec![0u16; 16];
    assert_eq!(empty, board_of(empty.clone()).to_tiles());
}

#[test]
fn transpose_twice_gives_the_board_back() {
    let board = board_of(vec![
        0, 2, 4, 16,
        4, 0, 2, 8,
        0, 4, 0, 32,
        2, 0, 512, 32768,
    ]);
    let transposed = board.transpose();
    assert_ne!(board, transposed);
    assert_eq!(board, transposed.transpose());
    assert_eq!(board.columns(), transposed.rows());
    assert_eq!(Board { state: u64::MAX }, Board { state: u64::MAX }.transpose());
}

#[test]
fn tables_agree_with_direct_moves() {
    let tables = MoveTables::new();
    let board = board_of(vec![
        2, 2, 4, 0,
        0, 4, 4, 8,
        16, 0, 16, 2,
        2, 8, 2, 2,
    ]);
    for d in Direction::all() {
        assert_eq!(board.move_to(d), tables.move_board(board, d));
    }
    let expected_up = board_of(vec![
        2, 2, 8, 8,
        16, 4, 16, 4,
        2, 8, 2, 0,
        0, 0, 0, 0,
    ]);
    assert_eq!(expected_up, tables.move_board(board, Direction::Up));
}

#[test]
fn iterators_hand_out_cells_in_order() {
    let board = board_of(vec![
        0, 2, 0, 2048,
        0, 256, 0, 512,
        0, 0, 1024, 4,
        8, 2, 16, 64
    ]);
    let mut empties = Vec::new();
    let mut it = board.into_empty_tiles_iter();
    while let Some(i) = it.next() {
        empties.push(i);
    }
    assert_eq!(vec![0, 2, 4, 6, 8, 9], empties);
    assert_eq!(None, it.next());
    let mut it = board.into_iter();
    let mut n = 0;
    while it.next().is_some() {
        n += 1;
    }
    assert_eq!(16, n);
    assert_eq!(None, it.next());
}

#[test]
fn empty_board_queries() {
    let board = Board::empty();
    assert_eq!(Board::default(), board);
    assert_eq!(0, board.max_value());
    assert_eq!(16, board.count_empty_tiles());
    assert_eq!(0, board.count_distinct_tiles());
    assert_eq!(board, board.move_to(Direction::Left));
    assert!(board.contains_exponent(0));
    assert!(!board.contains_exponent(1));
    assert_eq!(0x0201, board_of(vec![0, 4, 0, 2, 2, 0, 4, 0, 4, 2, 0, 512, 16, 8, 32, 32]).get_row(0));
    assert_eq!(0x2013, board_of(vec![2, 4, 0, 2, 0, 0, 4, 0, 4, 2, 0, 512, 16, 8, 32, 32]).get_column(1));
}

#[test]
fn directions_in_search_order() {
    assert_eq!(
        [Direction::Left, Direction::Right, Direction::Up, Direction::Down],
        Direction::all()
    );
}

#[test]
fn settled_board_does_not_move_that_way() {
    let board = board_of(vec![2, 4, 8, 0, 16, 0, 0, 0, 2, 4, 2, 4, 0, 0, 0, 0]);
    assert_eq!(board, board.move_to(Direction::Left));
    assert_ne!(board, board.move_to(Direction::Right));
    let board = board_of(vec![0, 0, 0, 0, 0, 2, 0, 0, 4, 8, 0, 2, 2, 4, 8, 4]);
    assert_eq!(board, board.move_to(Direction::Down));
    assert_ne!(board, board.move_to(Direction::Up));
}
