//! The scene: one active piece over the heap of locked cells, with the
//! checks that accept or reject each move.
use crate::models::board::{
    empty_grid, empty_row, filled_at, in_board, is_board, matrix_view, merged, overlap, Board,
    BoardCell, Grid, BOARD_HEIGHT, BOARD_WIDTH,
};
use crate::models::dir::{HDir, VDir};
use crate::models::matrix::{body_view, is_piece, law_rotation_round_trip, MatrixBody};
use crate::models::shape::{catalogue, spawned, Placement, Shape, Transform, SHAPE_COUNT};
use vstd::prelude::*;

verus! {

/// The cell that the placement puts on position `(r, c)` of the board:
/// the cell of the piece that lands there, `Empty` where none does.
pub open spec fn cell_under(p: Placement, r: int, c: int) -> BoardCell {
    if 0 <= r - p.y < p.cells.len() && 0 <= c - p.x < p.cells[r - p.y].len() {
        p.cells[r - p.y][c - p.x]
    } else {
        BoardCell::Empty
    }
}

/// The placement drawn on an empty board. Cells of the piece that land
/// outside the board are left out.
pub open spec fn projection(p: Placement) -> Grid {
    Seq::new(
        BOARD_HEIGHT as nat,
        |r: int| Seq::new(BOARD_WIDTH as nat, |c: int| cell_under(p, r, c)),
    )
}

/// Whether `(r, c)` names a cell of the arrangement `g`.
pub open spec fn in_cells(g: Grid, r: int, c: int) -> bool {
    0 <= r < g.len() && 0 <= c < g[r].len()
}

/// Whether some `Filled` cell of the piece lands left of column 0 or right
/// of the last column.
pub open spec fn crosses_h(p: Placement) -> bool {
    exists|r: int, c: int|
        in_cells(p.cells, r, c) && #[trigger] filled_at(p.cells, r, c) && !(0 <= p.x + c
            < BOARD_WIDTH)
}

/// Whether some `Filled` cell of the piece lands below the bottom row.
pub open spec fn crosses_v(p: Placement) -> bool {
    exists|r: int, c: int|
        in_cells(p.cells, r, c) && #[trigger] filled_at(p.cells, r, c) && p.y + r >= BOARD_HEIGHT
}

/// Whether every cell of `g` is `Empty`.
pub open spec fn all_empty(g: Grid) -> bool {
    forall|r: int, c: int| in_cells(g, r, c) ==> !#[trigger] filled_at(g, r, c)
}

/// Whether every cell of the row is `Filled`.
pub open spec fn is_complete(row: Seq<BoardCell>) -> bool {
    forall|c: int| 0 <= c < row.len() ==> row[c] == BoardCell::Filled
}

/// The rows of `g` that are not complete, in their order.
pub open spec fn kept_rows(g: Grid) -> Grid {
    g.filter(|row: Seq<BoardCell>| !is_complete(row))
}

/// `n` empty rows.
pub open spec fn empty_rows(n: int) -> Grid {
    Seq::new(n as nat, |r: int| empty_row())
}

/// The heap without its complete rows: the other rows keep their order and
/// sink to the bottom, and as many empty rows as were removed come on top.
pub open spec fn cleared(g: Grid) -> Grid {
    empty_rows(g.len() - kept_rows(g).len()) + kept_rows(g)
}

/// Boards that agree from row `r` on agree from row `r + 1` on.
proof fn lemma_same_tail(a: Grid, b: Grid, r: int)
    requires
        is_board(a),
        is_board(b),
        0 <= r < BOARD_HEIGHT,
        a.subrange(r, BOARD_HEIGHT as int) == b.subrange(r, BOARD_HEIGHT as int),
    ensures
        a[r] == b[r],
        a.subrange(r + 1, BOARD_HEIGHT as int) == b.subrange(r + 1, BOARD_HEIGHT as int),
{
    let tail_a = a.subrange(r, BOARD_HEIGHT as int);
    let tail_b = b.subrange(r, BOARD_HEIGHT as int);
    assert(a[r] == tail_a[0]);
    assert(b[r] == tail_b[0]);
    assert(a.subrange(r + 1, BOARD_HEIGHT as int) =~= tail_a.subrange(1, BOARD_HEIGHT - r));
    assert(b.subrange(r + 1, BOARD_HEIGHT as int) =~= tail_b.subrange(1, BOARD_HEIGHT - r));
}

/// The model of a scene: the active piece and the heap of locked cells.
pub struct SceneView {
    pub shape: Placement,
    pub heap: Grid,
}

impl SceneView {
    /// Whether the active piece overlaps the heap.
    pub open spec fn collides(self) -> bool {
        overlap(self.heap, projection(self.shape))
    }

    /// The scene with another piece over the same heap.
    pub open spec fn with_shape(self, shape: Placement) -> SceneView {
        SceneView { shape, heap: self.heap }
    }

    /// What is shown: the heap together with the active piece.
    pub open spec fn rendered(self) -> Grid {
        merged(self.heap, projection(self.shape))
    }

    /// The scene with the active piece locked into the heap.
    pub open spec fn locked(self) -> SceneView {
        SceneView { shape: self.shape, heap: merged(self.heap, projection(self.shape)) }
    }

    /// The scene with the complete rows of the heap removed.
    pub open spec fn swept(self) -> SceneView {
        SceneView { shape: self.shape, heap: cleared(self.heap) }
    }

    /// Whether a move by `dx` columns is rejected: the piece would cross
    /// the left or right edge of the board, or overlap the heap.
    pub open spec fn rejects_x(self, dx: int) -> bool {
        let moved = self.with_shape(self.shape.shifted_x(dx));
        crosses_h(moved.shape) || moved.collides()
    }

    /// Whether a move by `dy` rows is rejected: the piece would cross the
    /// bottom edge of the board, or overlap the heap.
    pub open spec fn rejects_y(self, dy: int) -> bool {
        let moved = self.with_shape(self.shape.shifted_y(dy));
        crosses_v(moved.shape) || moved.collides()
    }

    /// Whether the clockwise quarter turn is rejected: the turned piece
    /// would cross an edge of the board, or overlap the heap.
    pub open spec fn rejects_turn(self) -> bool {
        let turned = self.with_shape(self.shape.turned(VDir::Bottom, HDir::Left));
        crosses_h(turned.shape) || crosses_v(turned.shape) || turned.collides()
    }

    /// Whether the active piece has room where it is: none of its `Filled`
    /// cells is beyond the left, right or bottom edge of the board or on a
    /// `Filled` cell of the heap.
    pub open spec fn has_room(self) -> bool {
        !crosses_h(self.shape) && !crosses_v(self.shape) && !self.collides()
    }

    /// The scene after an attempt to move by `dx` columns: unchanged where
    /// the move is rejected.
    pub open spec fn moved_x(self, dx: int) -> SceneView {
        if self.rejects_x(dx) {
            self
        } else {
            self.with_shape(self.shape.shifted_x(dx))
        }
    }

    /// The scene after an attempt to move by `dy` rows: unchanged where the
    /// move is rejected.
    pub open spec fn moved_y(self, dy: int) -> SceneView {
        if self.rejects_y(dy) {
            self
        } else {
            self.with_shape(self.shape.shifted_y(dy))
        }
    }

    /// The scene after an attempt to turn clockwise: unchanged where the
    /// turn is rejected.
    pub open spec fn turned(self) -> SceneView {
        if self.rejects_turn() {
            self
        } else {
            self.with_shape(self.shape.turned(VDir::Bottom, HDir::Left))
        }
    }
}

/// No move leaves the piece where it has no room: a piece that has room
/// has room after every attempt to move or to turn it.
pub proof fn law_moves_keep_room(scene: SceneView, dx: int, dy: int)
    requires
        scene.has_room(),
    ensures
        scene.moved_x(dx).has_room(),
        scene.moved_y(dy).has_room(),
        scene.turned().has_room(),
{
}

/// One active piece over the heap of locked cells.
#[derive(Debug)]
pub struct Scene {
    shape: Shape,
    block_heap: Board,
}

impl View for Scene {
    type V = SceneView;

    closed spec fn view(&self) -> SceneView {
        SceneView { shape: self.shape@, heap: self.block_heap@ }
    }
}

impl Scene {
    /// A scene with a piece chosen at random over an empty heap.
    pub fn new() -> (scene: Scene)
        ensures
            scene@.heap == empty_grid(),
            exists|index: int|
                0 <= index < SHAPE_COUNT && scene@.shape == spawned(#[trigger] catalogue(index)),
    {
        let shape = Shape::random();
        let block_heap = Board::new();
        Scene { shape, block_heap }
    }

    /// The scene with the given piece over the given heap.
    pub fn from_parts(shape: Shape, block_heap: Board) -> (scene: Scene)
        ensures
            scene@ == (SceneView { shape: shape@, heap: block_heap@ }),
    {
        Scene { shape, block_heap }
    }

    /// The active piece.
    pub fn figure(&self) -> (shape: &Shape)
        ensures
            shape@ == self@.shape,
    {
        &self.shape
    }

    /// The heap of locked cells.
    pub fn heap(&self) -> (heap: &Board)
        ensures
            heap@ == self@.heap,
    {
        &self.block_heap
    }

    /// Locks the active piece into the heap, then removes the complete
    /// rows of the heap.
    pub fn credit(&mut self)
        ensures
            final(self)@ == old(self)@.locked().swept(),
    {
        self.merge();
        self.remove_filled_lines();
    }

    /// Replaces the active piece by a new one chosen at random.
    pub fn reset_figure(&mut self)
        ensures
            final(self)@.heap == old(self)@.heap,
            exists|index: int|
                0 <= index < SHAPE_COUNT && final(self)@.shape == spawned(
                    #[trigger] catalogue(index),
                ),
    {
        self.shape = Shape::random();
    }

    /// Replaces the active piece by `shape`.
    pub fn set_figure(&mut self, shape: Shape)
        ensures
            final(self)@ == old(self)@.with_shape(shape@),
    {
        self.shape = shape;
    }

    /// What is shown: the heap together with the active piece.
    pub fn get_merged(&self) -> (board: Board)
        ensures
            board@ == self@.rendered(),
    {
        let board = self.place_figure_on_board();
        self.block_heap.merge_with(&board)
    }

    /// The active piece drawn on an empty board. Cells of the piece that
    /// land outside the board are left out.
    pub fn place_figure_on_board(&self) -> (board: Board)
        ensures
            board@ == projection(self@.shape),
    {
        proof {
            use_type_invariant(&self.shape.matrix);
        }
        let mut board_matrix = Board::empty();
        let (height, width) = self.shape.matrix.size();
        let body = self.shape.matrix.body();
        let x: i16 = self.shape.x as i16;
        let y: i16 = self.shape.y as i16;
        let ghost p = self.shape@;
        assert forall|i: int, j: int| in_board(i, j) implies #[trigger] board_matrix[i][j]
            == BoardCell::Empty by {
            assert(matrix_view(board_matrix)[i][j] == empty_grid()[i][j]);
        }
        let mut r: usize = 0;
        while r < BOARD_HEIGHT
            invariant
                r <= BOARD_HEIGHT,
                p == self.shape@,
                p.cells == body_view(body@),
                is_piece(p.cells),
                height == p.cells.len(),
                width == p.cells[0].len(),
                x == p.x,
                y == p.y,
                forall|i: int, j: int|
                    0 <= i < r && 0 <= j < BOARD_WIDTH ==> #[trigger] board_matrix[i][j]
                        == cell_under(p, i, j),
                forall|i: int, j: int|
                    r <= i < BOARD_HEIGHT && 0 <= j < BOARD_WIDTH ==> #[trigger] board_matrix[i][j]
                        == BoardCell::Empty,
            decreases BOARD_HEIGHT - r,
        {
            let mut c: usize = 0;
            while c < BOARD_WIDTH
                invariant
                    r < BOARD_HEIGHT,
                    c <= BOARD_WIDTH,
                    p == self.shape@,
                    p.cells == body_view(body@),
                    is_piece(p.cells),
                    height == p.cells.len(),
                    width == p.cells[0].len(),
                    x == p.x,
                    y == p.y,
                    forall|i: int, j: int|
                        0 <= i < r && 0 <= j < BOARD_WIDTH ==> #[trigger] board_matrix[i][j]
                            == cell_under(p, i, j),
                    forall|j: int|
                        0 <= j < c ==> #[trigger] board_matrix[r as int][j] == cell_under(
                            p,
                            r as int,
                            j,
                        ),
                    forall|j: int|
                        c <= j < BOARD_WIDTH ==> #[trigger] board_matrix[r as int][j]
                            == BoardCell::Empty,
                    forall|i: int, j: int|
                        r < i < BOARD_HEIGHT && 0 <= j < BOARD_WIDTH
                            ==> #[trigger] board_matrix[i][j] == BoardCell::Empty,
                decreases BOARD_WIDTH - c,
            {
                let mr: i16 = r as i16 - y;
                let mc: i16 = c as i16 - x;
                if mr >= 0 && (mr as usize) < height && mc >= 0 && (mc as usize) < width {
                    board_matrix[r][c] = body[mr as usize][mc as usize];
                }
                c += 1;
            }
            r += 1;
        }
        let board = Board::from(board_matrix);
        assert(board@ =~~= projection(p));
        board
    }

    /// Locks the active piece: its cells become cells of the heap.
    pub fn merge(&mut self)
        ensures
            final(self)@ == old(self)@.locked(),
    {
        let board = self.place_figure_on_board();
        self.block_heap = self.block_heap.merge_with(&board)
    }

    /// Whether the active piece overlaps the heap.
    pub fn check_shape_intersects_heap(&self) -> (hit: bool)
        ensures
            hit == self@.collides(),
    {
        let board = self.place_figure_on_board();
        self.block_heap.check_intersects_with(&board)
    }

    /// Whether some `Filled` cell of the active piece lies left of column 0
    /// or right of the last column.
    pub fn check_shape_crosses_h_borders(&self) -> (crosses: bool)
        ensures
            crosses == crosses_h(self@.shape),
    {
        proof {
            use_type_invariant(&self.shape.matrix);
        }
        let (height, width) = self.shape.matrix.size();
        let x: i16 = self.shape.x as i16;
        let ghost p = self.shape@;
        // The columns of the piece that lie left of the board.
        let over: usize = if x < 0 {
            (-x) as usize
        } else {
            0
        };
        let left_end: usize = if over < width {
            over
        } else {
            width
        };
        let left_part: MatrixBody = self.shape.matrix.slice((0, 0), (height, left_end));
        // The columns of the piece that lie right of the board.
        let room: usize = if x < BOARD_WIDTH as i16 {
            (BOARD_WIDTH as i16 - x) as usize
        } else {
            0
        };
        let right_start: usize = if room < width {
            room
        } else {
            width
        };
        let right_part: MatrixBody = self.shape.matrix.slice((0, right_start), (height, width));
        let left_empty = Scene::check_empty(&left_part);
        let right_empty = Scene::check_empty(&right_part);
        proof {
            let left = body_view(left_part@);
            let right = body_view(right_part@);
            if !left_empty {
                let (r, c) = choose|r: int, c: int|
                    in_cells(left, r, c) && #[trigger] filled_at(left, r, c);
                assert(in_cells(p.cells, r, c) && filled_at(p.cells, r, c));
            }
            if !right_empty {
                let (r, c) = choose|r: int, c: int|
                    in_cells(right, r, c) && #[trigger] filled_at(right, r, c);
                assert(in_cells(p.cells, r, c + right_start) && filled_at(
                    p.cells,
                    r,
                    c + right_start,
                ));
            }
            if crosses_h(p) {
                let (r, c) = choose|r: int, c: int|
                    in_cells(p.cells, r, c) && #[trigger] filled_at(p.cells, r, c) && !(0 <= p.x
                        + c < BOARD_WIDTH);
                if p.x + c < 0 {
                    assert(in_cells(left, r, c) && filled_at(left, r, c));
                } else {
                    assert(in_cells(right, r, c - right_start) && filled_at(
                        right,
                        r,
                        c - right_start,
                    ));
                }
            }
        }
        !left_empty || !right_empty
    }

    /// Whether some `Filled` cell of the active piece lies below the bottom
    /// row.
    pub fn check_shape_crosses_v_borders(&self) -> (crosses: bool)
        ensures
            crosses == crosses_v(self@.shape),
    {
        proof {
            use_type_invariant(&self.shape.matrix);
        }
        let (height, width) = self.shape.matrix.size();
        let y: i16 = self.shape.y as i16;
        let ghost p = self.shape@;
        // The rows of the piece that lie below the board.
        let room: usize = if y < BOARD_HEIGHT as i16 {
            (BOARD_HEIGHT as i16 - y) as usize
        } else {
            0
        };
        let start: usize = if room < height {
            room
        } else {
            height
        };
        let slice: MatrixBody = self.shape.matrix.slice((start, 0), (height, width));
        let empty = Scene::check_empty(&slice);
        proof {
            let part = body_view(slice@);
            if !empty {
                let (r, c) = choose|r: int, c: int|
                    in_cells(part, r, c) && #[trigger] filled_at(part, r, c);
                assert(in_cells(p.cells, r + start, c) && filled_at(p.cells, r + start, c));
            }
            if crosses_v(p) {
                let (r, c) = choose|r: int, c: int|
                    in_cells(p.cells, r, c) && #[trigger] filled_at(p.cells, r, c) && p.y + r
                        >= BOARD_HEIGHT;
                assert(in_cells(part, r - start, c) && filled_at(part, r - start, c));
            }
        }
        !empty
    }

    /// Whether every cell of `body` is `Empty`. A body without rows, or
    /// with rows without cells, is empty.
    pub fn check_empty(body: &MatrixBody) -> (empty: bool)
        ensures
            empty == all_empty(body_view(body@)),
    {
        let ghost g = body_view(body@);
        let mut r: usize = 0;
        while r < body.len()
            invariant
                r <= body@.len(),
                g == body_view(body@),
                forall|i: int, j: int|
                    0 <= i < r && 0 <= j < g[i].len() ==> !#[trigger] filled_at(g, i, j),
            decreases body@.len() - r,
        {
            let mut c: usize = 0;
            while c < body[r].len()
                invariant
                    r < body@.len(),
                    c <= body@[r as int]@.len(),
                    g == body_view(body@),
                    forall|i: int, j: int|
                        0 <= i < r && 0 <= j < g[i].len() ==> !#[trigger] filled_at(g, i, j),
                    forall|j: int| 0 <= j < c ==> !#[trigger] filled_at(g, r as int, j),
                decreases body@[r as int]@.len() - c,
            {
                if body[r][c] != BoardCell::Empty {
                    assert(in_cells(g, r as int, c as int) && filled_at(g, r as int, c as int));
                    return false;
                }
                c += 1;
            }
            r += 1;
        }
        true
    }

    /// Moves the active piece by `dx` columns, unless the move is rejected;
    /// a rejected move leaves the scene as it was.
    pub fn move_figure_x(&mut self, dx: i8)
        requires
            i8::MIN <= old(self)@.shape.x + dx <= i8::MAX,
        ensures
            final(self)@ == old(self)@.moved_x(dx as int),
            crosses_h(old(self)@.shape.shifted_x(dx as int)) ==> final(self)@ == old(self)@,
    {
        let x = self.shape.x;
        self.shape.move_x(dx);
        if self.check_shape_crosses_h_borders() || self.check_shape_intersects_heap() {
            self.shape.x = x;
        }
    }

    /// Moves the active piece by `dy` rows, unless the move is rejected; a
    /// rejected move leaves the scene as it was. Returns whether the move
    /// was rejected.
    pub fn move_figure_y(&mut self, dy: i8) -> (blocked: bool)
        requires
            i8::MIN <= old(self)@.shape.y + dy <= i8::MAX,
        ensures
            blocked == old(self)@.rejects_y(dy as int),
            final(self)@ == old(self)@.moved_y(dy as int),
    {
        let y = self.shape.y;
        self.shape.move_y(dy);
        if self.check_shape_crosses_v_borders() || self.check_shape_intersects_heap() {
            self.shape.y = y;
            return true;
        }
        false
    }

    /// Turns the active piece clockwise by a quarter, unless the turn is
    /// rejected; a rejected turn leaves the scene as it was.
    pub fn rotate_figure(&mut self)
        ensures
            final(self)@ == old(self)@.turned(),
    {
        proof {
            use_type_invariant(&self.shape.matrix);
            law_rotation_round_trip(self.shape.matrix@);
        }
        self.shape.rotate(VDir::Bottom, HDir::Left);
        if self.check_shape_crosses_h_borders() || self.check_shape_crosses_v_borders()
            || self.check_shape_intersects_heap() {
            self.shape.rotate(VDir::Top, HDir::Right);
        }
    }

    /// Whether every cell of the row is `Filled`.
    fn is_filled_row(row: &[BoardCell; BOARD_WIDTH]) -> (filled: bool)
        ensures
            filled == is_complete(row@),
    {
        let mut c: usize = 0;
        while c < BOARD_WIDTH
            invariant
                c <= BOARD_WIDTH,
                forall|j: int| 0 <= j < c ==> row@[j] == BoardCell::Filled,
            decreases BOARD_WIDTH - c,
        {
            if row[c] != BoardCell::Filled {
                return false;
            }
            c += 1;
        }
        true
    }

    /// Removes every complete row of the heap. The rows above a removed
    /// row move down by one, and an empty row comes on top for each.
    pub fn remove_filled_lines(&mut self)
        ensures
            final(self)@ == old(self)@.swept(),
    {
        let ghost shape = self.shape@;
        let ghost before = self.block_heap@;
        let mut r: usize = 0;
        assert(empty_rows(0) + kept_rows(before.subrange(0, 0)) =~= before.subrange(0, 0)) by {
            reveal(Seq::filter);
        }
        while r < BOARD_HEIGHT
            invariant
                r <= BOARD_HEIGHT,
                is_board(before),
                is_board(self.block_heap@),
                self.shape@ == shape,
                kept_rows(before.subrange(0, r as int)).len() <= r,
                self.block_heap@.subrange(r as int, BOARD_HEIGHT as int) == before.subrange(
                    r as int,
                    BOARD_HEIGHT as int,
                ),
                self.block_heap@.subrange(0, r as int) == empty_rows(
                    r - kept_rows(before.subrange(0, r as int)).len(),
                ) + kept_rows(before.subrange(0, r as int)),
            decreases BOARD_HEIGHT - r,
        {
            let ghost heap = self.block_heap@;
            let ghost seen = before.subrange(0, r as int);
            let ghost next = before.subrange(0, r + 1);
            proof {
                lemma_same_tail(heap, before, r as int);
                assert(next.drop_last() =~= seen);
                reveal(Seq::filter);
            }
            if Scene::is_filled_row(&self.block_heap.0[r]) {
                self.block_heap.remove_line(r);
            }
            r += 1;
        }
        proof {
            assert(before.subrange(0, BOARD_HEIGHT as int) =~= before);
            assert(self.block_heap@.subrange(0, BOARD_HEIGHT as int) =~= self.block_heap@);
        }
    }
}

} // verus!
