use play_2048::utils::{
    exponent_of, get_exponent, get_left_move, get_right_move, invert_row, set_value_in_row,
    value_of_exponent,
};

#[test]
fn should_set_value_in_row() {
    // Given
    let row = 0b0101_0000_0101_1100;

    // When
    let updated_row = set_value_in_row(row, 2, 8);

    // Then
    assert_eq!(0b0101_0000_1000_1100, updated_row);
}

#[test]
fn should_get_left_move() {
    // Given
    let row = 0b0101_0000_0101_1100;

    // When
    let left_moved = get_left_move(row);

    // Then
    assert_eq!(0b0110_1100_0000_0000, left_moved);
}

#[test]
fn should_get_right_move() {
    // Given
    let row = 0b0101_0000_0101_1100;

    // When
    let left_moved = get_right_move(row);

    // Then
    assert_eq!(0b0000_0000_0110_1100, left_moved);
}

#[test]
fn should_invert_row() {
    // Given
    let row = 0b0101_0000_0101_1100;

    // When
    let inverted_row = invert_row(row);

    // Then
    assert_eq!(0b1100_0101_0000_0101, inverted_row);
}

#[test]
fn four_twos_merge_pairwise() {
    // [2, 2, 2, 2]
    let row = 0x1111;
    assert_eq!(0x2200, get_left_move(row));
    assert_eq!(0x0022, get_right_move(row));
}

#[test]
fn three_twos_merge_once() {
    // [2, 2, 2, 0] slides left to [4, 2, 0, 0], not [4, 4, 0, 0]
    assert_eq!(0x2100, get_left_move(0x1110));
    // [0, 2, 2, 2] slides right to [0, 0, 2, 4]
    assert_eq!(0x0012, get_right_move(0x0111));
}

#[test]
fn terminal_rows_do_not_change() {
    // [8, 4, 2, 0] left, [0, 2, 8, 2] right
    assert_eq!(0x3210, get_left_move(0x3210));
    assert_eq!(0x0131, get_right_move(0x0131));
    // a full row without equal neighbours
    assert_eq!(0x1213, get_left_move(0x1213));
    assert_eq!(0x1213, get_right_move(0x1213));
}

#[test]
fn largest_tiles_do_not_merge() {
    // [32768, 32768, 0, 0]
    assert_eq!(0xFF00, get_left_move(0xFF00));
    assert_eq!(0x00FF, get_right_move(0xFF00));
    // [16384, 16384, 0, 0] merges into 32768
    assert_eq!(0xF000, get_left_move(0xEE00));
}

#[test]
fn empty_row_stays_empty() {
    assert_eq!(0, get_left_move(0));
    assert_eq!(0, get_right_move(0));
}

#[test]
fn tile_values_and_exponents() {
    assert_eq!(Some(0), exponent_of(0));
    assert_eq!(Some(1), exponent_of(2));
    assert_eq!(Some(9), exponent_of(512));
    assert_eq!(Some(15), exponent_of(32768));
    assert_eq!(None, exponent_of(1));
    assert_eq!(None, exponent_of(3));
    assert_eq!(None, exponent_of(65535));
    assert_eq!(11, get_exponent(2048));
    assert_eq!(0, value_of_exponent(0));
    assert_eq!(2, value_of_exponent(1));
    assert_eq!(32768, value_of_exponent(15));
}
