use tetris::constants::{all_pieces, orientation, rand_tetromino, Shape, Tetromino, SHAPE_COUNT};
use tetris::resources::{Piece, PieceStatus};

#[test]
fn catalog_has_seven_shapes_in_order() {
    let pieces = all_pieces();
    assert_eq!(pieces.len(), SHAPE_COUNT);
    let shapes: Vec<Shape> = pieces.iter().map(|p| p.shape).collect();
    assert_eq!(
        shapes,
        vec![Shape::T, Shape::O, Shape::I, Shape::L, Shape::J, Shape::S, Shape::Z]
    );
}

#[test]
fn orientations_match_the_table() {
    assert_eq!(orientation(Shape::T, 0).0, [(0, 0), (1, 0), (2, 0), (1, 1)]);
    assert_eq!(orientation(Shape::T, 3).0, [(0, 2), (0, 1), (0, 0), (1, 1)]);
    assert_eq!(orientation(Shape::I, 1).0, [(0, 0), (1, 0), (2, 0), (3, 0)]);
    assert_eq!(orientation(Shape::J, 2).0, [(1, 0), (0, 0), (0, 1), (0, 2)]);
    assert_eq!(orientation(Shape::Z, 3).0, [(1, 0), (1, 1), (0, 1), (0, 2)]);
    let l = Tetromino::of_shape(Shape::L);
    assert_eq!(l.orientations[1].0, [(0, 1), (1, 1), (2, 1), (2, 0)]);
}

#[test]
fn random_tetromino_comes_from_the_catalog() {
    let pieces = all_pieces();
    for _ in 0..200 {
        let t = rand_tetromino();
        assert!(pieces.iter().any(|p| *p == t));
    }
}

#[test]
fn four_rotations_restore_the_piece() {
    let mut p = Piece {
        rotation: 2,
        x: 3,
        y: 5,
        piece: Tetromino::of_shape(Shape::J),
        status: PieceStatus::Falling,
    };
    let start = p;
    p.rotate();
    assert_eq!(p.rotation, 3);
    p.rotate();
    assert_eq!(p.rotation, 0);
    p.rotate();
    p.rotate();
    assert_eq!(p, start);
}

#[test]
fn tetromino_at_follows_catalog_order() {
    let pieces = all_pieces();
    for (i, p) in pieces.iter().enumerate() {
        assert_eq!(tetris::constants::tetromino_at(i), *p);
    }
    assert_eq!(tetris::constants::tetromino_at(2).shape, Shape::I);
    assert_eq!(tetris::constants::tetromino_at(6), Tetromino::of_shape(Shape::Z));
}
