use vstd::prelude::*;

verus! {

/// The four cells of one orientation, as offsets from the piece's anchor.
#[derive(Debug, Clone, Copy, PartialEq, Eq)]
pub struct SquarePositions(pub [(isize, isize); 4]);

/// The seven tetromino shapes.
#[derive(Debug, Clone, Copy, PartialEq, Eq, Structural)]
pub enum Shape {
    T,
    O,
    I,
    L,
    J,
    S,
    Z,
}

/// Number of shapes in the catalog.
pub const SHAPE_COUNT: usize = 7;

/// The shapes in catalog order.
pub open spec fn shape_at(i: int) -> Shape {
    if i == 0 {
        Shape::T
    } else if i == 1 {
        Shape::O
    } else if i == 2 {
        Shape::I
    } else if i == 3 {
        Shape::L
    } else if i == 4 {
        Shape::J
    } else if i == 5 {
        Shape::S
    } else {
        Shape::Z
    }
}

/// The cell offsets of `shape` turned `rotation` quarter turns (0 to 3).
pub open spec fn offsets_of(shape: Shape, rotation: int) -> Seq<(isize, isize)> {
    match shape {
        Shape::T => if rotation == 0 {
            seq![(0, 0), (1, 0), (2, 0), (1, 1)]
        } else if rotation == 1 {
            seq![(2, 0), (2, 1), (2, 2), (1, 1)]
        } else if rotation == 2 {
            seq![(2, 2), (1, 2), (0, 2), (1, 1)]
        } else {
            seq![(0, 2), (0, 1), (0, 0), (1, 1)]
        },
        Shape::O => seq![(0, 0), (1, 0), (0, 1), (1, 1)],
        Shape::I => if rotation == 0 {
            seq![(0, 0), (0, 1), (0, 2), (0, 3)]
        } else if rotation == 1 {
            seq![(0, 0), (1, 0), (2, 0), (3, 0)]
        } else if rotation == 2 {
            seq![(1, 0), (1, 1), (1, 2), (1, 3)]
        } else {
            seq![(0, 1), (1, 1), (2, 1), (3, 1)]
        },
        Shape::L => if rotation == 0 {
            seq![(0, 0), (0, 1), (0, 2), (1, 2)]
        } else if rotation == 1 {
            seq![(0, 1), (1, 1), (2, 1), (2, 0)]
        } else if rotation == 2 {
            seq![(0, 0), (1, 0), (1, 1), (1, 2)]
        } else {
            seq![(0, 1), (0, 0), (1, 0), (2, 0)]
        },
        Shape::J => if rotation == 0 {
            seq![(0, 2), (1, 2), (1, 1), (1, 0)]
        } else if rotation == 1 {
            seq![(2, 2), (2, 1), (1, 1), (0, 1)]
        } else if rotation == 2 {
            seq![(1, 0), (0, 0), (0, 1), (0, 2)]
        } else {
            seq![(0, 0), (0, 1), (1, 1), (2, 1)]
        },
        Shape::S => if rotation == 0 || rotation == 2 {
            seq![(0, 1), (1, 1), (1, 0), (2, 0)]
        } else {
            seq![(1, 2), (1, 1), (0, 1), (0, 0)]
        },
        Shape::Z => if rotation == 0 || rotation == 2 {
            seq![(0, 0), (1, 0), (1, 1), (2, 1)]
        } else {
            seq![(1, 0), (1, 1), (0, 1), (0, 2)]
        },
    }
}

/// Every orientation has four cells, each offset between 0 and 3 on both axes.
pub proof fn lemma_offsets_bounded(shape: Shape, rotation: int)
    ensures
        offsets_of(shape, rotation).len() == 4,
        forall|i: int|
            0 <= i < 4 ==> 0 <= (#[trigger] offsets_of(shape, rotation)[i]).0 <= 3 && 0 <= offsets_of(shape, rotation)[i].1 <= 3,
{
}

/// The cell offsets of `shape` turned `rotation` quarter turns.
pub fn orientation(shape: Shape, rotation: usize) -> (r: SquarePositions)
    requires
        rotation < 4,
    ensures
        r.0@ == offsets_of(shape, rotation as int),
{
    match shape {
        Shape::T => if rotation == 0 {
            SquarePositions([(0, 0), (1, 0), (2, 0), (1, 1)])
        } else if rotation == 1 {
            SquarePositions([(2, 0), (2, 1), (2, 2), (1, 1)])
        } else if rotation == 2 {
            SquarePositions([(2, 2), (1, 2), (0, 2), (1, 1)])
        } else {
            SquarePositions([(0, 2), (0, 1), (0, 0), (1, 1)])
        },
        Shape::O => SquarePositions([(0, 0), (1, 0), (0, 1), (1, 1)]),
        Shape::I => if rotation == 0 {
            SquarePositions([(0, 0), (0, 1), (0, 2), (0, 3)])
        } else if rotation == 1 {
            SquarePositions([(0, 0), (1, 0), (2, 0), (3, 0)])
        } else if rotation == 2 {
            SquarePositions([(1, 0), (1, 1), (1, 2), (1, 3)])
        } else {
            SquarePositions([(0, 1), (1, 1), (2, 1), (3, 1)])
        },
        Shape::L => if rotation == 0 {
            SquarePositions([(0, 0), (0, 1), (0, 2), (1, 2)])
        } else if rotation == 1 {
            SquarePositions([(0, 1), (1, 1), (2, 1), (2, 0)])
        } else if rotation == 2 {
            SquarePositions([(0, 0), (1, 0), (1, 1), (1, 2)])
        } else {
            SquarePositions([(0, 1), (0, 0), (1, 0), (2, 0)])
        },
        Shape::J => if rotation == 0 {
            SquarePositions([(0, 2), (1, 2), (1, 1), (1, 0)])
        } else if rotation == 1 {
            SquarePositions([(2, 2), (2, 1), (1, 1), (0, 1)])
        } else if rotation == 2 {
            SquarePositions([(1, 0), (0, 0), (0, 1), (0, 2)])
        } else {
            SquarePositions([(0, 0), (0, 1), (1, 1), (2, 1)])
        },
        Shape::S => if rotation == 0 || rotation == 2 {
            SquarePositions([(0, 1), (1, 1), (1, 0), (2, 0)])
        } else {
            SquarePositions([(1, 2), (1, 1), (0, 1), (0, 0)])
        },
        Shape::Z => if rotation == 0 || rotation == 2 {
            SquarePositions([(0, 0), (1, 0), (1, 1), (2, 1)])
        } else {
            SquarePositions([(1, 0), (1, 1), (0, 1), (0, 2)])
        },
    }
}

/// A tetromino: its shape and the offsets of its four rotations.
#[derive(Debug, Clone, Copy, PartialEq, Eq)]
pub struct Tetromino {
    pub orientations: [SquarePositions; 4],
    pub shape: Shape,
}

impl Tetromino {
    /// The orientation table matches the shape's entry in the catalog.
    pub open spec fn wf(&self) -> bool {
        forall|r: int| 0 <= r < 4 ==> (#[trigger] self.orientations@[r]).0@ == offsets_of(self.shape, r)
    }

    /// The cell offsets of this tetromino turned `rotation` quarter turns.
    pub open spec fn offsets(&self, rotation: int) -> Seq<(isize, isize)> {
        self.orientations@[rotation].0@
    }

    /// The catalog entry of `shape`.
    pub fn of_shape(shape: Shape) -> (r: Tetromino)
        ensures
            r.shape == shape,
            r.wf(),
    {
        Tetromino {
            orientations: [orientation(shape, 0), orientation(shape, 1), orientation(shape, 2), orientation(shape, 3)],
            shape,
        }
    }
}

/// The shape at `index` in catalog order.
pub fn shape_from_index(index: usize) -> (r: Shape)
    requires
        index < SHAPE_COUNT,
    ensures
        r == shape_at(index as int),
{
    if index == 0 {
        Shape::T
    } else if index == 1 {
        Shape::O
    } else if index == 2 {
        Shape::I
    } else if index == 3 {
        Shape::L
    } else if index == 4 {
        Shape::J
    } else if index == 5 {
        Shape::S
    } else {
        Shape::Z
    }
}

/// The seven tetrominoes, in catalog order.
pub fn all_pieces() -> (r: Vec<Tetromino>)
    ensures
        r@.len() == SHAPE_COUNT,
        forall|i: int| 0 <= i < SHAPE_COUNT ==> (#[trigger] r@[i]).shape == shape_at(i) && r@[i].wf(),
{
    let mut pieces: Vec<Tetromino> = Vec::new();
    let mut i: usize = 0;
    while i < SHAPE_COUNT
        invariant
            i <= SHAPE_COUNT,
            pieces@.len() == i,
            forall|k: int| 0 <= k < i ==> (#[trigger] pieces@[k]).shape == shape_at(k) && pieces@[k].wf(),
        decreases SHAPE_COUNT - i,
    {
        pieces.push(Tetromino::of_shape(shape_from_index(i)));
        i = i + 1;
    }
    pieces
}

/// Relies on rand's `Uniform::new(0, n)`, sampled with `thread_rng()`: a value
/// in `[0, n)`. `Uniform::new` panics when the range is empty, which `n > 0`
/// rules out.
#[verifier::external_body]
fn random_index(n: usize) -> (r: usize)
    requires
        n > 0,
    ensures
        r < n,
{
    rand::distributions::Distribution::sample(&rand::distributions::Uniform::new(0, n), &mut rand::thread_rng())
}

/// The tetromino at `index` in catalog order.
pub fn tetromino_at(index: usize) -> (r: Tetromino)
    requires
        index < SHAPE_COUNT,
    ensures
        r.shape == shape_at(index as int),
        r.wf(),
{
    let pieces = all_pieces();
    pieces[index]
}

/// A tetromino drawn uniformly from the catalog.
pub fn rand_tetromino() -> (r: Tetromino)
    ensures
        r.wf(),
        exists|i: int| 0 <= i < SHAPE_COUNT && r.shape == shape_at(i),
{
    let i = random_index(SHAPE_COUNT);
    tetromino_at(i)
}

} // verus!
