use tetris::board::Board;
use tetris::collision::{blocked, compute_drop_height};
use tetris::components::{Blocked, GridPos};
use tetris::constants::{Shape, Tetromino};
use tetris::resources::{Piece, PieceStatus};
use tetris::systems::{bloc_global_position, move_shadow};

fn piece(shape: Shape, x: isize, y: isize) -> Piece {
    Piece { rotation: 0, x, y, piece: Tetromino::of_shape(shape), status: PieceStatus::Falling }
}

#[test]
fn t_piece_cells_are_anchor_plus_offsets() {
    let board = Board::new(10, 20);
    let cells = bloc_global_position(&piece(Shape::T, 4, 0), &board);
    assert_eq!(
        cells,
        vec![
            GridPos { x: 4, y: 0 },
            GridPos { x: 5, y: 0 },
            GridPos { x: 6, y: 0 },
            GridPos { x: 5, y: 1 }
        ]
    );
}

#[test]
fn walls_and_floor_block() {
    let board = Board::new(10, 20);
    let free = bloc_global_position(&piece(Shape::O, 4, 5), &board);
    assert_eq!(blocked(&board, &free), Blocked { left: false, right: false, bottom: false });
    let at_left = bloc_global_position(&piece(Shape::O, 0, 5), &board);
    assert_eq!(blocked(&board, &at_left), Blocked { left: true, right: false, bottom: false });
    let at_right = bloc_global_position(&piece(Shape::O, 8, 5), &board);
    assert_eq!(blocked(&board, &at_right), Blocked { left: false, right: true, bottom: false });
    let on_floor = bloc_global_position(&piece(Shape::O, 4, 18), &board);
    assert_eq!(blocked(&board, &on_floor), Blocked { left: false, right: false, bottom: true });
}

#[test]
fn settled_blocks_block() {
    let mut board = Board::new(10, 20);
    assert_eq!(
        board.commit(&vec![GridPos { x: 3, y: 5 }, GridPos { x: 6, y: 6 }, GridPos { x: 5, y: 7 }]),
        Ok(())
    );
    let cells = bloc_global_position(&piece(Shape::O, 4, 5), &board);
    assert_eq!(blocked(&board, &cells), Blocked { left: true, right: true, bottom: true });
}

#[test]
fn drop_depth_on_empty_board() {
    let board = Board::new(10, 20);
    let cells = bloc_global_position(&piece(Shape::T, 4, 0), &board);
    assert_eq!(compute_drop_height(&board, &cells), 18);
    let resting = bloc_global_position(&piece(Shape::T, 4, 18), &board);
    assert_eq!(compute_drop_height(&board, &resting), 0);
}

#[test]
fn drop_depth_stops_on_a_block() {
    let mut board = Board::new(10, 20);
    assert_eq!(board.commit(&vec![GridPos { x: 5, y: 10 }]), Ok(()));
    let cells = bloc_global_position(&piece(Shape::T, 4, 0), &board);
    assert_eq!(compute_drop_height(&board, &cells), 8);
}

#[test]
fn taller_board_never_shortens_the_drop() {
    let mut short = Board::new(10, 20);
    let mut tall = Board::new(10, 25);
    let block = vec![GridPos { x: 1, y: 15 }];
    assert_eq!(short.commit(&block), Ok(()));
    assert_eq!(tall.commit(&block), Ok(()));
    let p = piece(Shape::O, 6, 0);
    let d_short = compute_drop_height(&short, &bloc_global_position(&p, &short));
    let d_tall = compute_drop_height(&tall, &bloc_global_position(&p, &tall));
    assert_eq!(d_short, 18);
    assert_eq!(d_tall, 23);
    // Over the block, both boards stop the piece at the same depth.
    let q = piece(Shape::O, 1, 0);
    let q_short = compute_drop_height(&short, &bloc_global_position(&q, &short));
    let q_tall = compute_drop_height(&tall, &bloc_global_position(&q, &tall));
    assert_eq!(q_short, 13);
    assert_eq!(q_tall, 13);
}

#[test]
fn shadow_sits_at_the_drop_depth() {
    let board = Board::new(10, 20);
    let shadow = move_shadow(&board, &piece(Shape::I, 2, 3));
    assert_eq!(
        shadow,
        vec![
            GridPos { x: 2, y: 16 },
            GridPos { x: 2, y: 17 },
            GridPos { x: 2, y: 18 },
            GridPos { x: 2, y: 19 }
        ]
    );
}
