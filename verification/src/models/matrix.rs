//! The cell arrangement of one piece, in the piece's own coordinates.
use crate::models::board::{BoardCell, Grid};
use crate::models::dir::{is_rotation, HDir, VDir};
use vstd::prelude::*;

verus! {

/// The storage of a piece matrix: a list of rows.
pub type MatrixBody = Vec<Vec<BoardCell>>;

/// One step of a turn: the row and column to write, each followed by the
/// column and row to read, in the order `[write row, read column, write
/// column, read row]`.
pub type Indexes = [usize; 4];

/// A list of stored rows as a grid.
pub open spec fn body_view(body: Seq<Vec<BoardCell>>) -> Grid {
    Seq::new(body.len(), |r: int| body[r]@)
}

/// Whether `g` is the arrangement of a piece: a rectangle of cells with at
/// least one row and one column.
pub open spec fn is_piece(g: Grid) -> bool {
    &&& g.len() > 0
    &&& g[0].len() > 0
    &&& forall|r: int| 0 <= r < g.len() ==> (#[trigger] g[r]).len() == g[0].len()
}

/// The quarter turn clockwise: row `i` of the result is column `i` of `g`,
/// read from the bottom up.
pub open spec fn rotated_cw(g: Grid) -> Grid {
    Seq::new(g[0].len(), |i: int| Seq::new(g.len(), |j: int| g[g.len() - 1 - j][i]))
}

/// The quarter turn counter-clockwise: row `i` of the result is column `i`
/// of `g` counted from the right, read from the top down.
pub open spec fn rotated_ccw(g: Grid) -> Grid {
    Seq::new(g[0].len(), |i: int| Seq::new(g.len(), |j: int| g[j][g[0].len() - 1 - i]))
}

/// The quarter turn that the pair of directions names.
pub open spec fn rotation(g: Grid, v_dir: VDir, h_dir: HDir) -> Grid
    recommends
        is_rotation(v_dir, h_dir),
{
    if v_dir == VDir::Bottom {
        rotated_cw(g)
    } else {
        rotated_ccw(g)
    }
}

/// A quarter turn in one direction followed by one in the other gives back
/// the arrangement.
pub proof fn law_rotation_round_trip(g: Grid)
    requires
        is_piece(g),
    ensures
        is_piece(rotated_cw(g)),
        is_piece(rotated_ccw(g)),
        rotated_ccw(rotated_cw(g)) == g,
        rotated_cw(rotated_ccw(g)) == g,
{
    assert(rotated_ccw(rotated_cw(g)) =~~= g);
    assert(rotated_cw(rotated_ccw(g)) =~~= g);
}

/// The rectangle of `g` from row `top` up to row `bottom` and from column
/// `left` up to column `right`, both ends exclusive.
pub open spec fn sliced(g: Grid, top: int, left: int, bottom: int, right: int) -> Grid {
    Seq::new((bottom - top) as nat, |r: int| g[top + r].subrange(left, right))
}

/// The position of the pair `(i, j)` in a list that runs through every `j`
/// below `cols` for each `i` in turn.
pub open spec fn flat(i: int, j: int, cols: int) -> int {
    i * cols + j
}

/// Pairs within bounds have positions within the list.
proof fn lemma_flat_bound(i: int, j: int, rows: int, cols: int)
    requires
        0 <= i < rows,
        0 <= j < cols,
    ensures
        0 <= flat(i, j, cols) < rows * cols,
{
    assert(i * cols + cols <= rows * cols) by (nonlinear_arith)
        requires
            0 <= i < rows,
            0 < cols,
    ;
    assert(0 <= i * cols) by (nonlinear_arith)
        requires
            0 <= i,
            0 < cols,
    ;
}

/// Distinct pairs have distinct positions.
proof fn lemma_flat_injective(i1: int, j1: int, i2: int, j2: int, cols: int)
    requires
        0 <= i1,
        0 <= i2,
        0 <= j1 < cols,
        0 <= j2 < cols,
        flat(i1, j1, cols) == flat(i2, j2, cols),
    ensures
        i1 == i2,
        j1 == j2,
{
    if i1 < i2 {
        assert(i1 * cols + cols <= i2 * cols) by (nonlinear_arith)
            requires
                0 <= i1 < i2,
                0 < cols,
        ;
    } else if i2 < i1 {
        assert(i2 * cols + cols <= i1 * cols) by (nonlinear_arith)
            requires
                0 <= i2 < i1,
                0 < cols,
        ;
    }
}

/// The position after `flat(i, j, cols)` is that of the next pair.
proof fn lemma_flat_next(i: int, j: int, cols: int)
    requires
        0 <= j < cols,
    ensures
        j + 1 < cols ==> flat(i, j, cols) + 1 == flat(i, j + 1, cols),
        j + 1 == cols ==> flat(i, j, cols) + 1 == flat(i + 1, 0, cols),
{
    assert((i + 1) * cols == i * cols + cols) by (nonlinear_arith);
}

/// The numbers from 0 up to `n`, ascending.
fn ascending(n: usize) -> (range: Vec<usize>)
    ensures
        range@.len() == n,
        forall|k: int| 0 <= k < n ==> range@[k] == k,
{
    let mut range: Vec<usize> = Vec::new();
    let mut k: usize = 0;
    while k < n
        invariant
            k <= n,
            range@.len() == k,
            forall|i: int| 0 <= i < k ==> range@[i] == i,
        decreases n - k,
    {
        range.push(k);
        k += 1;
    }
    range
}

/// The numbers below `n`, descending.
fn descending(n: usize) -> (range: Vec<usize>)
    ensures
        range@.len() == n,
        forall|k: int| 0 <= k < n ==> range@[k] == n - 1 - k,
{
    let mut range: Vec<usize> = Vec::new();
    let mut k: usize = n;
    while k > 0
        invariant
            k <= n,
            range@.len() == n - k,
            forall|i: int| 0 <= i < n - k ==> range@[i] == n - 1 - i,
        decreases k,
    {
        k -= 1;
        range.push(k);
    }
    range
}

/// A body of `rows` rows by `cols` columns with every cell `Empty`.
fn blank(rows: usize, cols: usize) -> (body: MatrixBody)
    ensures
        body@.len() == rows,
        forall|r: int| 0 <= r < rows ==> (#[trigger] body@[r])@.len() == cols,
        forall|r: int, c: int|
            0 <= r < rows && 0 <= c < cols ==> (#[trigger] body@[r]@[c]) == BoardCell::Empty,
{
    let mut body: MatrixBody = Vec::new();
    let mut r: usize = 0;
    while r < rows
        invariant
            r <= rows,
            body@.len() == r,
            forall|i: int| 0 <= i < r ==> (#[trigger] body@[i])@.len() == cols,
            forall|i: int, c: int|
                0 <= i < r && 0 <= c < cols ==> (#[trigger] body@[i]@[c]) == BoardCell::Empty,
        decreases rows - r,
    {
        let mut row: Vec<BoardCell> = Vec::new();
        let mut c: usize = 0;
        while c < cols
            invariant
                c <= cols,
                row@.len() == c,
                forall|j: int| 0 <= j < c ==> row@[j] == BoardCell::Empty,
            decreases cols - c,
        {
            row.push(BoardCell::Empty);
            c += 1;
        }
        body.push(row);
        r += 1;
    }
    body
}

/// The cell arrangement of one piece: a rectangle of cells with at least one
/// row and one column.
#[derive(Debug)]
pub struct Matrix {
    body: MatrixBody,
}

impl View for Matrix {
    type V = Grid;

    closed spec fn view(&self) -> Grid {
        body_view(self.body@)
    }
}

impl Matrix {
    /// What holds of every matrix: it is the arrangement of a piece.
    #[verifier::type_invariant]
    pub open spec fn wf(self) -> bool {
        is_piece(self@)
    }

    /// The matrix that holds the rows of `body`.
    pub fn new(body: MatrixBody) -> (matrix: Matrix)
        requires
            is_piece(body_view(body@)),
        ensures
            matrix@ == body_view(body@),
    {
        Matrix { body }
    }

    /// The quarter turn that `(v_dir, h_dir)` names, as a new matrix with
    /// the numbers of rows and columns exchanged.
    pub fn rotate(&self, v_dir: VDir, h_dir: HDir) -> (turned: Matrix)
        requires
            is_rotation(v_dir, h_dir),
        ensures
            turned@ == rotation(self@, v_dir, h_dir),
    {
        proof {
            use_type_invariant(self);
        }
        let (height, width) = self.size();
        let indexes = match v_dir {
            VDir::Bottom => Matrix::create_indexes(ascending(width), descending(height)),
            VDir::Top => Matrix::create_indexes(descending(width), ascending(height)),
        };
        let ghost clockwise = v_dir == VDir::Bottom;
        let ghost read_col = |i: int| if clockwise { i } else { width - 1 - i };
        let ghost read_row = |j: int| if clockwise { height - 1 - j } else { j };
        assert forall|i: int, j: int| 0 <= i < width && 0 <= j < height implies (
        #[trigger] indexes@[flat(i, j, height as int)])@ == seq![
            i as usize,
            read_col(i) as usize,
            j as usize,
            read_row(j) as usize,
        ] by {}

        let mut acc = blank(width, height);
        let ghost mut i0: int = 0;
        let ghost mut j0: int = 0;
        let mut k: usize = 0;
        while k < indexes.len()
            invariant
                is_piece(self@),
                self@ == body_view(self.body@),
                height == self@.len(),
                width == self@[0].len(),
                indexes@.len() == width * height,
                forall|i: int, j: int|
                    0 <= i < width && 0 <= j < height ==> (#[trigger] indexes@[flat(
                        i,
                        j,
                        height as int,
                    )])@ == seq![i as usize, read_col(i) as usize, j as usize, read_row(j) as usize],
                forall|i: int| 0 <= i < width ==> 0 <= #[trigger] read_col(i) < width,
                forall|j: int| 0 <= j < height ==> 0 <= #[trigger] read_row(j) < height,
                0 <= i0 <= width,
                0 <= j0 < height,
                k == flat(i0, j0, height as int),
                k <= indexes@.len(),
                acc@.len() == width,
                forall|r: int| 0 <= r < width ==> (#[trigger] acc@[r])@.len() == height,
                forall|i: int, j: int|
                    0 <= i < width && 0 <= j < height && flat(i, j, height as int) < k ==> (
                    #[trigger] acc@[i]@[j]) == self@[read_row(j)][read_col(i)],
            decreases indexes@.len() - k,
        {
            proof {
                if i0 >= width {
                    assert(width * height <= i0 * height) by (nonlinear_arith)
                        requires
                            width <= i0,
                            0 < height,
                    ;
                }
            }
            let step: Indexes = indexes[k];
            let ri: usize = step[0];
            let mc: usize = step[1];
            let ci: usize = step[2];
            let mr: usize = step[3];
            assert(self@[mr as int].len() == width);
            acc[ri][ci] = self.body[mr][mc];
            proof {
                assert forall|i: int, j: int|
                    0 <= i < width && 0 <= j < height && flat(i, j, height as int) < k
                        + 1 implies (#[trigger] acc@[i]@[j]) == self@[read_row(j)][read_col(i)] by {
                    if flat(i, j, height as int) == k {
                        lemma_flat_injective(i, j, i0, j0, height as int);
                    }
                }
                lemma_flat_next(i0, j0, height as int);
                if j0 + 1 == height {
                    i0 = i0 + 1;
                    j0 = 0;
                } else {
                    j0 = j0 + 1;
                }
            }
            k += 1;
        }
        let turned = Matrix { body: acc };
        proof {
            assert forall|i: int, j: int| 0 <= i < width && 0 <= j < height implies (
            #[trigger] acc@[i]@[j]) == self@[read_row(j)][read_col(i)] by {
                lemma_flat_bound(i, j, width as int, height as int);
            }
            assert(turned@ =~~= rotation(self@, v_dir, h_dir));
        }
        turned
    }

    /// The numbers of rows and of columns, in this order.
    pub fn size(&self) -> (size: (usize, usize))
        ensures
            size.0 == self@.len(),
            size.1 == self@[0].len(),
    {
        proof {
            use_type_invariant(self);
        }
        (self.body.len(), self.body[0].len())
    }

    /// Every pairing of a position of `row_it` with a position of `col_it`,
    /// each position followed by the entry found there. The pairs come row
    /// position by row position, and for each through all column positions.
    pub fn create_indexes(row_it: Vec<usize>, col_it: Vec<usize>) -> (result: Vec<Indexes>)
        ensures
            result@.len() == row_it@.len() * col_it@.len(),
            forall|i: int, j: int|
                0 <= i < row_it@.len() && 0 <= j < col_it@.len() ==> (#[trigger] result@[flat(
                    i,
                    j,
                    col_it@.len() as int,
                )])@ == seq![i as usize, row_it@[i], j as usize, col_it@[j]],
    {
        let rows = row_it.len();
        let cols = col_it.len();
        let mut result: Vec<Indexes> = Vec::new();
        let mut i: usize = 0;
        while i < rows
            invariant
                rows == row_it@.len(),
                cols == col_it@.len(),
                i <= rows,
                result@.len() == flat(i as int, 0, cols as int),
                forall|a: int, b: int|
                    0 <= a < i && 0 <= b < cols ==> (#[trigger] result@[flat(a, b, cols as int)])@
                        == seq![a as usize, row_it@[a], b as usize, col_it@[b]],
            decreases rows - i,
        {
            let mut j: usize = 0;
            while j < cols
                invariant
                    rows == row_it@.len(),
                    cols == col_it@.len(),
                    i < rows,
                    j <= cols,
                    result@.len() == flat(i as int, j as int, cols as int),
                    forall|a: int, b: int|
                        0 <= a < i && 0 <= b < cols ==> (#[trigger] result@[flat(
                            a,
                            b,
                            cols as int,
                        )])@ == seq![a as usize, row_it@[a], b as usize, col_it@[b]],
                    forall|b: int|
                        0 <= b < j ==> (#[trigger] result@[flat(i as int, b, cols as int)])@
                            == seq![i, row_it@[i as int], b as usize, col_it@[b]],
                decreases cols - j,
            {
                let step: Indexes = [i, row_it[i], j, col_it[j]];
                result.push(step);
                proof {
                    assert forall|a: int, b: int| 0 <= a < i && 0 <= b < cols implies (
                    #[trigger] result@[flat(a, b, cols as int)])@ == seq![
                        a as usize,
                        row_it@[a],
                        b as usize,
                        col_it@[b],
                    ] by {
                        lemma_flat_bound(a, b, i as int, cols as int);
                    }
                }
                j += 1;
            }
            proof {
                assert((i + 1) * cols == i * cols + cols) by (nonlinear_arith);
            }
            i += 1;
        }
        result
    }

    /// The rows of the matrix.
    pub fn body(&self) -> (body: &MatrixBody)
        ensures
            body_view(body@) == self@,
    {
        &self.body
    }

    /// A detached copy of the rectangle from `from` up to `to`, each given
    /// as `(row, column)`, both ends exclusive. The rectangle may have no
    /// rows or no columns.
    pub fn slice(&self, from: (usize, usize), to: (usize, usize)) -> (part: MatrixBody)
        requires
            from.0 <= to.0 <= self@.len(),
            from.1 <= to.1 <= self@[0].len(),
        ensures
            body_view(part@) == sliced(
                self@,
                from.0 as int,
                from.1 as int,
                to.0 as int,
                to.1 as int,
            ),
    {
        proof {
            use_type_invariant(self);
        }
        let (top, left) = from;
        let (bottom, right) = to;
        let mut part: MatrixBody = Vec::new();
        let mut r: usize = top;
        while r < bottom
            invariant
                is_piece(self@),
                self@ == body_view(self.body@),
                top <= r <= bottom <= self@.len(),
                left <= right <= self@[0].len(),
                part@.len() == r - top,
                forall|i: int|
                    0 <= i < r - top ==> (#[trigger] part@[i])@ == self@[top + i].subrange(
                        left as int,
                        right as int,
                    ),
            decreases bottom - r,
        {
            let mut row: Vec<BoardCell> = Vec::new();
            let mut c: usize = left;
            assert(self@[r as int].len() == self@[0].len());
            while c < right
                invariant
                    r < self.body@.len(),
                    left <= c <= right <= self.body@[r as int]@.len(),
                    row@.len() == c - left,
                    forall|j: int| 0 <= j < c - left ==> row@[j] == self.body@[r as int]@[left + j],
                decreases right - c,
            {
                row.push(self.body[r][c]);
                c += 1;
            }
            part.push(row);
            r += 1;
        }
        part
    }
}

} // verus!
