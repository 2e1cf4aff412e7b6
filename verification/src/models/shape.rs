//! The catalogue of pieces and the active piece: a matrix at an offset on
//! the board.
use crate::models::board::{BoardCell, Grid};
use crate::models::dir::{is_rotation, HDir, VDir};
use crate::models::matrix::{
    body_view, is_piece, law_rotation_round_trip, rotation, Matrix, MatrixBody,
};
use rand::seq::SliceRandom;
use vstd::prelude::*;
use vstd::slice::slice_to_vec;

verus! {

/// The number of shapes in the catalogue.
pub const SHAPE_COUNT: usize = 7;

/// The column offset of every new piece.
pub const SPAWN_X: i8 = 3;

/// The row offset of every new piece: flush with the top row.
pub const SPAWN_Y: i8 = 0;

/// A catalogue entry as a grid.
pub open spec fn template_view(template: &[&[BoardCell]]) -> Grid {
    Seq::new(template@.len(), |r: int| template@[r]@)
}

/// The catalogue: the shapes T, I, O, Z, S, J and L, in this order.
pub open spec fn catalogue(index: int) -> Grid {
    let e = BoardCell::Empty;
    let f = BoardCell::Filled;
    if index == 0 {
        seq![seq![e, f, e], seq![f, f, f], seq![e, e, e]]
    } else if index == 1 {
        seq![seq![e, e, e, e], seq![f, f, f, f], seq![e, e, e, e], seq![e, e, e, e]]
    } else if index == 2 {
        seq![seq![f, f], seq![f, f]]
    } else if index == 3 {
        seq![seq![f, f, e], seq![e, f, f], seq![e, e, e]]
    } else if index == 4 {
        seq![seq![e, f, f], seq![f, f, e], seq![e, e, e]]
    } else if index == 5 {
        seq![seq![f, e, e], seq![f, f, f], seq![e, e, e]]
    } else {
        seq![seq![e, e, f], seq![f, f, f], seq![e, e, e]]
    }
}

/// The name of each catalogue entry.
pub open spec fn shape_name(index: int) -> Seq<char> {
    if index == 0 {
        "shape0"@
    } else if index == 1 {
        "shape1"@
    } else if index == 2 {
        "shape2"@
    } else if index == 3 {
        "shape3"@
    } else if index == 4 {
        "shape4"@
    } else if index == 5 {
        "shape5"@
    } else {
        "shape6"@
    }
}

/// Whether `name` names a catalogue entry.
pub open spec fn is_shape_name(name: Seq<char>) -> bool {
    ||| name == shape_name(0)
    ||| name == shape_name(1)
    ||| name == shape_name(2)
    ||| name == shape_name(3)
    ||| name == shape_name(4)
    ||| name == shape_name(5)
    ||| name == shape_name(6)
}

/// The names of the catalogue are distinct.
pub proof fn lemma_shape_names_distinct()
    ensures
        forall|i: int, j: int|
            0 <= i < SHAPE_COUNT && 0 <= j < SHAPE_COUNT && #[trigger] shape_name(i)
                == #[trigger] shape_name(j) ==> i == j,
{
    reveal_strlit("shape0");
    reveal_strlit("shape1");
    reveal_strlit("shape2");
    reveal_strlit("shape3");
    reveal_strlit("shape4");
    reveal_strlit("shape5");
    reveal_strlit("shape6");
    assert forall|i: int, j: int|
        0 <= i < SHAPE_COUNT && 0 <= j < SHAPE_COUNT && #[trigger] shape_name(i)
            == #[trigger] shape_name(j) implies i == j by {
        assert(shape_name(i)[5] == shape_name(j)[5]);
    }
}

/// Every catalogue entry is the arrangement of a piece.
pub proof fn lemma_catalogue_is_piece(index: int)
    ensures
        is_piece(catalogue(index)),
{
}

/// Every catalogue entry, turned clockwise by a quarter and then
/// counter-clockwise by a quarter, is as it was.
pub proof fn law_catalogue_round_trip(index: int)
    requires
        0 <= index < SHAPE_COUNT,
    ensures
        rotation(
            rotation(catalogue(index), VDir::Bottom, HDir::Left),
            VDir::Top,
            HDir::Right,
        ) == catalogue(index),
{
    lemma_catalogue_is_piece(index);
    law_rotation_round_trip(catalogue(index));
}

/// The model of an active piece: an arrangement of cells and the offset of
/// its top-left corner on the board. Either offset may be negative.
pub struct Placement {
    pub x: int,
    pub y: int,
    pub cells: Grid,
}

impl Placement {
    /// The placement `dx` columns to the right.
    pub open spec fn shifted_x(self, dx: int) -> Placement {
        Placement { x: self.x + dx, y: self.y, cells: self.cells }
    }

    /// The placement `dy` rows further down.
    pub open spec fn shifted_y(self, dy: int) -> Placement {
        Placement { x: self.x, y: self.y + dy, cells: self.cells }
    }

    /// The placement with its cells turned and its corner where it was.
    pub open spec fn turned(self, v_dir: VDir, h_dir: HDir) -> Placement {
        Placement { x: self.x, y: self.y, cells: rotation(self.cells, v_dir, h_dir) }
    }
}

/// The placement of a new piece with the given cells.
pub open spec fn spawned(cells: Grid) -> Placement {
    Placement { x: SPAWN_X as int, y: SPAWN_Y as int, cells }
}

/// What can be moved over the board and turned in place.
pub trait Transform: Sized {
    /// Whether the column offset can take `dx` more.
    spec fn admits_x(&self, dx: i8) -> bool;

    /// Whether the row offset can take `dy` more.
    spec fn admits_y(&self, dy: i8) -> bool;

    /// Whether `after` is this value moved by `dx` columns.
    spec fn is_moved_x(&self, dx: i8, after: &Self) -> bool;

    /// Whether `after` is this value moved by `dy` rows.
    spec fn is_moved_y(&self, dy: i8, after: &Self) -> bool;

    /// Whether `after` is this value turned as `(v_dir, h_dir)` says.
    spec fn is_turned(&self, v_dir: VDir, h_dir: HDir, after: &Self) -> bool;

    /// Moves by `dx` columns, to the right where `dx` is positive.
    fn move_x(&mut self, dx: i8)
        requires
            old(self).admits_x(dx),
        ensures
            old(self).is_moved_x(dx, final(self)),
    ;

    /// Moves by `dy` rows, down where `dy` is positive.
    fn move_y(&mut self, dy: i8)
        requires
            old(self).admits_y(dy),
        ensures
            old(self).is_moved_y(dy, final(self)),
    ;

    /// Turns by the quarter turn that `(v_dir, h_dir)` names.
    fn rotate(&mut self, v_dir: VDir, h_dir: HDir)
        requires
            is_rotation(v_dir, h_dir),
        ensures
            old(self).is_turned(v_dir, h_dir, final(self)),
    ;
}

/// The active piece: a matrix and the offset of its top-left corner on the
/// board, in columns (`x`) and rows (`y`).
#[derive(Debug)]
pub struct Shape {
    pub x: i8,
    pub y: i8,
    pub matrix: Matrix,
}

impl View for Shape {
    type V = Placement;

    open spec fn view(&self) -> Placement {
        Placement { x: self.x as int, y: self.y as int, cells: self.matrix@ }
    }
}

/// One element of `candidates`, drawn by `rand::seq::SliceRandom::choose`
/// with the generator that `rand::thread_rng` hands out.
///
/// This contract is believed, not proved. It says what `choose` does on a
/// slice: an empty slice gives `None`, any other slice gives one of its
/// elements. Which element comes is left open: it differs from call to call.
/// `rand::thread_rng` panics where the system has no randomness to seed the
/// generator with; no argument decides that.
#[verifier::external_body]
fn draw(candidates: &Vec<usize>) -> (picked: Option<usize>)
    ensures
        candidates@.len() == 0 ==> picked is None,
        candidates@.len() > 0 ==> picked is Some && candidates@.contains(picked->0),
{
    candidates.choose(&mut rand::thread_rng()).copied()
}

impl Shape {
    /// The catalogue entry at `index`.
    pub fn template(index: usize) -> (template: &'static [&'static [BoardCell]])
        requires
            index < SHAPE_COUNT,
        ensures
            template_view(template) == catalogue(index as int),
    {
        let template: &'static [&'static [BoardCell]] = if index == 0 {
            &[
                &[BoardCell::Empty, BoardCell::Filled, BoardCell::Empty],
                &[BoardCell::Filled, BoardCell::Filled, BoardCell::Filled],
                &[BoardCell::Empty, BoardCell::Empty, BoardCell::Empty],
            ]
        } else if index == 1 {
            &[
                &[BoardCell::Empty, BoardCell::Empty, BoardCell::Empty, BoardCell::Empty],
                &[BoardCell::Filled, BoardCell::Filled, BoardCell::Filled, BoardCell::Filled],
                &[BoardCell::Empty, BoardCell::Empty, BoardCell::Empty, BoardCell::Empty],
                &[BoardCell::Empty, BoardCell::Empty, BoardCell::Empty, BoardCell::Empty],
            ]
        } else if index == 2 {
            &[&[BoardCell::Filled, BoardCell::Filled], &[BoardCell::Filled, BoardCell::Filled]]
        } else if index == 3 {
            &[
                &[BoardCell::Filled, BoardCell::Filled, BoardCell::Empty],
                &[BoardCell::Empty, BoardCell::Filled, BoardCell::Filled],
                &[BoardCell::Empty, BoardCell::Empty, BoardCell::Empty],
            ]
        } else if index == 4 {
            &[
                &[BoardCell::Empty, BoardCell::Filled, BoardCell::Filled],
                &[BoardCell::Filled, BoardCell::Filled, BoardCell::Empty],
                &[BoardCell::Empty, BoardCell::Empty, BoardCell::Empty],
            ]
        } else if index == 5 {
            &[
                &[BoardCell::Filled, BoardCell::Empty, BoardCell::Empty],
                &[BoardCell::Filled, BoardCell::Filled, BoardCell::Filled],
                &[BoardCell::Empty, BoardCell::Empty, BoardCell::Empty],
            ]
        } else {
            &[
                &[BoardCell::Empty, BoardCell::Empty, BoardCell::Filled],
                &[BoardCell::Filled, BoardCell::Filled, BoardCell::Filled],
                &[BoardCell::Empty, BoardCell::Empty, BoardCell::Empty],
            ]
        };
        template
    }

    /// The catalogue entry with the given name.
    pub fn get_named(name: &str) -> (template: &'static [&'static [BoardCell]])
        requires
            is_shape_name(name@),
        ensures
            forall|index: int|
                0 <= index < SHAPE_COUNT && name@ == #[trigger] shape_name(index)
                    ==> template_view(template) == catalogue(index),
    {
        let owned = name.to_owned();
        let index: usize = if owned == "shape0".to_owned() {
            0
        } else if owned == "shape1".to_owned() {
            1
        } else if owned == "shape2".to_owned() {
            2
        } else if owned == "shape3".to_owned() {
            3
        } else if owned == "shape4".to_owned() {
            4
        } else if owned == "shape5".to_owned() {
            5
        } else {
            6
        };
        proof {
            assert(name@ == shape_name(index as int));
            lemma_shape_names_distinct();
        }
        Shape::template(index)
    }

    /// A fresh copy of the rows of a catalogue entry, so that a change to
    /// the copy leaves the catalogue as it is.
    pub fn clone(matrix: &[&[BoardCell]]) -> (body: MatrixBody)
        ensures
            body_view(body@) == template_view(matrix),
    {
        let mut body: MatrixBody = Vec::new();
        let mut r: usize = 0;
        while r < matrix.len()
            invariant
                r <= matrix@.len(),
                body@.len() == r,
                forall|i: int| 0 <= i < r ==> (#[trigger] body@[i])@ == matrix@[i]@,
            decreases matrix@.len() - r,
        {
            body.push(slice_to_vec(matrix[r]));
            r += 1;
        }
        body
    }

    /// A new piece with the given rows, at the spawn position.
    pub fn new(shape: MatrixBody) -> (piece: Shape)
        requires
            is_piece(body_view(shape@)),
        ensures
            piece@ == spawned(body_view(shape@)),
    {
        let x = SPAWN_X;
        let y = SPAWN_Y;
        Shape { x, y, matrix: Matrix::new(shape) }
    }

    /// A new piece with the cells of the catalogue entry at `index`.
    pub fn pick(index: usize) -> (piece: Shape)
        requires
            index < SHAPE_COUNT,
        ensures
            piece@ == spawned(catalogue(index as int)),
    {
        let shape = Shape::clone(Shape::template(index));
        proof {
            lemma_catalogue_is_piece(index as int);
        }
        Shape::new(shape)
    }

    /// A new piece with the cells of a catalogue entry chosen at random.
    pub fn random() -> (piece: Shape)
        ensures
            exists|index: int| 0 <= index < SHAPE_COUNT && piece@ == spawned(catalogue(index)),
    {
        let mut candidates: Vec<usize> = Vec::new();
        let mut index: usize = 0;
        while index < SHAPE_COUNT
            invariant
                index <= SHAPE_COUNT,
                candidates@.len() == index,
                forall|k: int| 0 <= k < index ==> candidates@[k] == k,
            decreases SHAPE_COUNT - index,
        {
            candidates.push(index);
            index += 1;
        }
        match draw(&candidates) {
            Some(picked) => Shape::pick(picked),
            None => unreached(),
        }
    }
}

impl Transform for Shape {
    open spec fn admits_x(&self, dx: i8) -> bool {
        i8::MIN <= self.x + dx <= i8::MAX
    }

    open spec fn admits_y(&self, dy: i8) -> bool {
        i8::MIN <= self.y + dy <= i8::MAX
    }

    open spec fn is_moved_x(&self, dx: i8, after: &Shape) -> bool {
        after@ == self@.shifted_x(dx as int)
    }

    open spec fn is_moved_y(&self, dy: i8, after: &Shape) -> bool {
        after@ == self@.shifted_y(dy as int)
    }

    open spec fn is_turned(&self, v_dir: VDir, h_dir: HDir, after: &Shape) -> bool {
        after@ == self@.turned(v_dir, h_dir)
    }

    fn move_x(&mut self, dx: i8) {
        self.x += dx;
    }

    fn move_y(&mut self, dy: i8) {
        self.y += dy;
    }

    fn rotate(&mut self, v_dir: VDir, h_dir: HDir) {
        self.matrix = self.matrix.rotate(v_dir, h_dir)
    }
}

} // verus!
