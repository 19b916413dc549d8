use tetris::board::{Board, CommitError};
use tetris::components::GridPos;
use tetris::resources::Status;
use tetris::systems::completed_line;

fn cell(x: isize, y: isize) -> GridPos {
    GridPos { x, y }
}

fn count(board: &Board) -> usize {
    let mut n = 0;
    for y in 0..board.height() as isize {
        for x in 0..board.width() as isize {
            if board.is_occupied(x, y) {
                n += 1;
            }
        }
    }
    n
}

fn fill_row(board: &mut Board, y: isize) {
    let cells: Vec<GridPos> = (0..board.width() as isize).map(|x| cell(x, y)).collect();
    assert_eq!(board.commit(&cells), Ok(()));
}

#[test]
fn new_board_is_empty() {
    let board = Board::new(10, 20);
    assert_eq!(board.width(), 10);
    assert_eq!(board.height(), 20);
    assert_eq!(count(&board), 0);
    assert!(board.completed_rows().is_empty());
}

#[test]
fn commit_marks_cells() {
    let mut board = Board::new(10, 20);
    assert_eq!(board.commit(&vec![cell(0, 19), cell(9, 0), cell(3, 7)]), Ok(()));
    assert!(board.is_occupied(0, 19));
    assert!(board.is_occupied(9, 0));
    assert!(board.is_occupied(3, 7));
    assert!(!board.is_occupied(1, 19));
    assert!(!board.is_occupied(-1, 19));
    assert!(!board.is_occupied(10, 0));
    assert_eq!(count(&board), 3);
}

#[test]
fn commit_out_of_bounds_fails_and_changes_nothing() {
    let mut board = Board::new(10, 20);
    assert_eq!(board.commit(&vec![cell(0, 0), cell(10, 5)]), Err(CommitError::OutOfBounds));
    assert_eq!(board.commit(&vec![cell(0, -1)]), Err(CommitError::OutOfBounds));
    assert_eq!(board.commit(&vec![cell(0, 20)]), Err(CommitError::OutOfBounds));
    assert_eq!(count(&board), 0);
}

#[test]
fn commit_occupied_fails_and_changes_nothing() {
    let mut board = Board::new(10, 20);
    assert_eq!(board.commit(&vec![cell(4, 4)]), Ok(()));
    assert_eq!(board.commit(&vec![cell(5, 4), cell(4, 4)]), Err(CommitError::Occupied));
    assert!(!board.is_occupied(5, 4));
    assert_eq!(count(&board), 1);
}

#[test]
fn out_of_bounds_is_reported_before_occupied() {
    let mut board = Board::new(10, 20);
    assert_eq!(board.commit(&vec![cell(4, 4)]), Ok(()));
    assert_eq!(board.commit(&vec![cell(4, 4), cell(-1, 4)]), Err(CommitError::OutOfBounds));
}

#[test]
fn bottom_row_clears_and_rows_above_settle() {
    // A full bottom row and one block above it, on a 10 x 20 board.
    let mut board = Board::new(10, 20);
    fill_row(&mut board, 19);
    assert_eq!(board.commit(&vec![cell(3, 18)]), Ok(()));
    assert_eq!(board.completed_rows(), vec![19]);
    let mut status = Status::new();
    completed_line(&mut board, &mut status);
    assert!(board.is_occupied(3, 19));
    assert_eq!(count(&board), 1);
    assert!(board.completed_rows().is_empty());
    assert_eq!(status.score, 100 * status.level);
    assert_eq!(status.lines, 1);
}

#[test]
fn completed_rows_are_ascending_and_only_full() {
    let mut board = Board::new(4, 6);
    fill_row(&mut board, 5);
    fill_row(&mut board, 2);
    fill_row(&mut board, 3);
    assert_eq!(board.commit(&vec![cell(0, 4), cell(1, 4), cell(2, 4)]), Ok(()));
    assert_eq!(board.completed_rows(), vec![2, 3, 5]);
}

#[test]
fn clearing_removes_width_cells_per_row() {
    let mut board = Board::new(4, 6);
    fill_row(&mut board, 5);
    fill_row(&mut board, 3);
    assert_eq!(board.commit(&vec![cell(1, 4), cell(2, 2), cell(0, 1)]), Ok(()));
    let before = count(&board);
    let rows = board.completed_rows();
    assert_eq!(rows, vec![3, 5]);
    board.clear_and_compact(&rows);
    assert_eq!(count(&board), before - 4 * rows.len());
    assert!(board.completed_rows().is_empty());
    // Row 4 sat above one cleared row, rows 2 and 1 above two.
    assert!(board.is_occupied(1, 5));
    assert!(board.is_occupied(2, 4));
    assert!(board.is_occupied(0, 3));
    assert_eq!(count(&board), 3);
}

#[test]
fn clearing_ignores_rows_outside_the_board() {
    let mut board = Board::new(3, 3);
    assert_eq!(board.commit(&vec![cell(1, 1)]), Ok(()));
    board.clear_and_compact(&vec![7, 7]);
    assert!(board.is_occupied(1, 1));
    assert_eq!(count(&board), 1);
}

#[test]
fn single_column_board_clears_each_block() {
    let mut board = Board::new(1, 2);
    assert_eq!(board.commit(&vec![cell(0, 1)]), Ok(()));
    assert_eq!(board.completed_rows(), vec![1]);
    assert!(board.row_is_full(1));
    assert!(!board.row_is_full(0));
}
