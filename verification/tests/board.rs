use falling_blocks::models::board::{Board, BoardCell, BoardMatrix, BOARD_HEIGHT, BOARD_WIDTH};

fn row_of(cell: BoardCell) -> [BoardCell; BOARD_WIDTH] {
    [cell; BOARD_WIDTH]
}

/// A board with a pattern that differs from row to row and column to column.
fn patterned(seed: usize) -> Board {
    let mut board = Board::new();
    for r in 0..BOARD_HEIGHT {
        for c in 0..BOARD_WIDTH {
            if (r * 7 + c * 3 + seed) % 4 < 2 {
                board.0[r][c] = BoardCell::Filled;
            }
        }
    }
    board
}

#[test]
fn check_board_merge() {
    let mut b1 = Board::new();
    let mut b2 = Board::new();

    b1.0[0][0] = BoardCell::Filled;
    b2.0[0][1] = BoardCell::Filled;

    let mut compare = Board::new();
    compare.0[0][0] = BoardCell::Filled;
    compare.0[0][1] = BoardCell::Filled;

    assert_eq!(Board::merge(&b1, &b2), compare);
}

#[test]
fn check_board_don_t_intersect() {
    let mut b1 = Board::new();
    let mut b2 = Board::new();

    b1.0[0][0] = BoardCell::Filled;
    b2.0[0][1] = BoardCell::Filled;

    assert!(!Board::intersection(&b1, &b2));
}

#[test]
fn check_board_intersect() {
    let mut b1 = Board::new();
    let mut b2 = Board::new();

    b1.0[0][0] = BoardCell::Filled;
    b2.0[0][0] = BoardCell::Filled;

    assert!(Board::intersection(&b1, &b2));
}

#[test]
fn check_remove_line() {
    let mut b1 = Board::new();

    b1.0[1] = [BoardCell::Filled; BOARD_WIDTH];
    b1.remove_line(1);

    assert_eq!(b1, Board::new());
}

#[test]
fn cell_and_is_filled_only_for_two_filled_cells() {
    assert_eq!(BoardCell::Filled & BoardCell::Filled, BoardCell::Filled);
    assert_eq!(BoardCell::Filled & BoardCell::Empty, BoardCell::Empty);
    assert_eq!(BoardCell::Empty & BoardCell::Filled, BoardCell::Empty);
    assert_eq!(BoardCell::Empty & BoardCell::Empty, BoardCell::Empty);
}

#[test]
fn cell_or_is_filled_for_any_filled_cell() {
    assert_eq!(BoardCell::Filled | BoardCell::Filled, BoardCell::Filled);
    assert_eq!(BoardCell::Filled | BoardCell::Empty, BoardCell::Filled);
    assert_eq!(BoardCell::Empty | BoardCell::Filled, BoardCell::Filled);
    assert_eq!(BoardCell::Empty | BoardCell::Empty, BoardCell::Empty);
}

#[test]
fn cell_codes_are_zero_and_one() {
    assert_eq!(u8::from(BoardCell::Empty), 0);
    assert_eq!(u8::from(BoardCell::Filled), 1);
    assert_eq!(BoardCell::from(0), BoardCell::Empty);
    assert_eq!(BoardCell::from(1), BoardCell::Filled);
}

#[test]
fn new_board_is_empty_and_has_the_board_dimensions() {
    let board = Board::new();
    assert_eq!(board.iter().count(), BOARD_HEIGHT);
    assert_eq!(BOARD_HEIGHT, 18);
    assert_eq!(BOARD_WIDTH, 10);
    for row in board.iter() {
        assert_eq!(*row, row_of(BoardCell::Empty));
    }
    let matrix: BoardMatrix = Board::empty();
    assert_eq!(Board::from(matrix), board);
}

#[test]
fn iter_gives_the_rows_from_the_top_down() {
    let mut board = Board::new();
    board.0[0][2] = BoardCell::Filled;
    board.0[17][9] = BoardCell::Filled;
    let rows: Vec<[BoardCell; BOARD_WIDTH]> = board.iter().copied().collect();
    assert_eq!(rows.len(), 18);
    assert_eq!(rows[0][2], BoardCell::Filled);
    assert_eq!(rows[17][9], BoardCell::Filled);
    assert_eq!(rows[1], row_of(BoardCell::Empty));
}

#[test]
fn merge_is_commutative() {
    let a = patterned(0);
    let b = patterned(1);
    assert_eq!(Board::merge(&a, &b), Board::merge(&b, &a));
    assert_eq!(a.merge_with(&b), b.merge_with(&a));
}

#[test]
fn merge_is_idempotent() {
    let a = patterned(2);
    assert_eq!(Board::merge(&a, &a), a);
}

#[test]
fn merge_is_associative() {
    let a = patterned(0);
    let b = patterned(1);
    let c = patterned(3);
    assert_eq!(
        Board::merge(&Board::merge(&a, &b), &c),
        Board::merge(&a, &Board::merge(&b, &c))
    );
}

#[test]
fn merge_with_the_empty_board_changes_nothing() {
    let a = patterned(5);
    assert_eq!(Board::merge(&a, &Board::new()), a);
}

#[test]
fn intersection_is_symmetric() {
    let a = patterned(0);
    let b = patterned(2);
    assert_eq!(Board::intersection(&a, &b), Board::intersection(&b, &a));
    assert_eq!(a.check_intersects_with(&b), b.check_intersects_with(&a));

    let mut c = Board::new();
    let mut d = Board::new();
    c.0[17][9] = BoardCell::Filled;
    d.0[17][9] = BoardCell::Filled;
    assert!(Board::intersection(&c, &d));
    assert!(Board::intersection(&d, &c));
}

#[test]
fn intersection_finds_the_last_cell_of_the_board() {
    let mut a = patterned(0);
    let mut b = Board::new();
    a.0[17][9] = BoardCell::Filled;
    b.0[17][9] = BoardCell::Filled;
    assert!(a.check_intersects_with(&b));
    b.0[17][9] = BoardCell::Empty;
    assert!(!a.check_intersects_with(&b));
}

#[test]
fn remove_line_shifts_the_rows_above_and_keeps_the_rows_below() {
    let before = patterned(1);
    let mut board = patterned(1);
    board.remove_line(7);

    assert_eq!(board.0[0], row_of(BoardCell::Empty));
    for r in 1..=7 {
        assert_eq!(board.0[r], before.0[r - 1]);
    }
    for r in 8..BOARD_HEIGHT {
        assert_eq!(board.0[r], before.0[r]);
    }
    assert_eq!(board.iter().count(), BOARD_HEIGHT);
}

#[test]
fn remove_line_at_the_top_row() {
    let before = patterned(3);
    let mut board = patterned(3);
    board.remove_line(0);

    assert_eq!(board.0[0], row_of(BoardCell::Empty));
    for r in 1..BOARD_HEIGHT {
        assert_eq!(board.0[r], before.0[r]);
    }
}

#[test]
fn remove_line_at_the_bottom_row() {
    let before = patterned(3);
    let mut board = patterned(3);
    board.remove_line(BOARD_HEIGHT - 1);

    assert_eq!(board.0[0], row_of(BoardCell::Empty));
    for r in 1..BOARD_HEIGHT {
        assert_eq!(board.0[r], before.0[r - 1]);
    }
}

#[test]
fn board_from_a_full_list_of_rows_takes_each_row() {
    let source = patterned(2);
    let rows: Vec<[BoardCell; BOARD_WIDTH]> = source.iter().copied().collect();
    assert_eq!(Board::from(&rows), source);
}

#[test]
fn board_from_a_short_list_pads_the_top() {
    let mut first = row_of(BoardCell::Empty);
    first[0] = BoardCell::Filled;
    let second = row_of(BoardCell::Filled);
    let rows = vec![first, second];

    let board = Board::from(&rows);

    for r in 0..BOARD_HEIGHT - 2 {
        assert_eq!(board.0[r], row_of(BoardCell::Empty));
    }
    assert_eq!(board.0[BOARD_HEIGHT - 2], first);
    assert_eq!(board.0[BOARD_HEIGHT - 1], second);
}

#[test]
fn board_from_an_empty_list_is_empty() {
    let rows: Vec<[BoardCell; BOARD_WIDTH]> = Vec::new();
    assert_eq!(Board::from(&rows), Board::new());
}

#[test]
fn board_from_a_long_list_leaves_out_the_rows_past_the_height() {
    let source = patterned(4);
    let mut rows: Vec<[BoardCell; BOARD_WIDTH]> = source.iter().copied().collect();
    rows.push(row_of(BoardCell::Filled));
    rows.push(row_of(BoardCell::Filled));
    assert_eq!(Board::from(&rows), source);
}
