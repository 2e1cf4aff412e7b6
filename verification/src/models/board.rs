//! The playfield: cells, fixed-size boards of cells, and the operations that
//! combine boards.
use std::ops::{BitAnd, BitOr};
use vstd::prelude::*;
use vstd::std_specs::convert::FromSpecImpl;
use vstd::std_specs::iter::IteratorSpec;
use vstd::std_specs::ops::{BitAndSpecImpl, BitOrSpecImpl};

verus! {

/// Number of columns of the playfield.
pub const BOARD_WIDTH: usize = 10;

/// Number of rows of the playfield. Row 0 is the top row.
pub const BOARD_HEIGHT: usize = 18;

/// The storage of a board: `BOARD_HEIGHT` rows of `BOARD_WIDTH` cells.
pub type BoardMatrix = [[BoardCell; BOARD_WIDTH]; BOARD_HEIGHT];

/// The mathematical model of an arrangement of cells: a sequence of rows.
pub type Grid = Seq<Seq<BoardCell>>;

/// One position of the playfield.
#[derive(Debug, Clone, Copy, PartialEq, Eq, Structural)]
pub enum BoardCell {
    Empty,
    Filled,
}

/// Pointwise conjunction: `Filled` only where both cells are `Filled`.
pub open spec fn cell_and(a: BoardCell, b: BoardCell) -> BoardCell {
    if a == BoardCell::Filled && b == BoardCell::Filled {
        BoardCell::Filled
    } else {
        BoardCell::Empty
    }
}

/// Pointwise disjunction: `Filled` where either cell is `Filled`.
pub open spec fn cell_or(a: BoardCell, b: BoardCell) -> BoardCell {
    if a == BoardCell::Filled || b == BoardCell::Filled {
        BoardCell::Filled
    } else {
        BoardCell::Empty
    }
}

/// The number that stands for a cell: 0 for `Empty`, 1 for `Filled`.
pub open spec fn cell_code(cell: BoardCell) -> u8 {
    match cell {
        BoardCell::Empty => 0,
        BoardCell::Filled => 1,
    }
}

impl BoardCell {
    /// Decodes a cell from its number. Only 0 and 1 stand for a cell, so this
    /// conversion is partial and is no `From` impl.
    pub fn from(i: u8) -> (cell: BoardCell)
        requires
            i <= 1,
        ensures
            cell_code(cell) == i,
    {
        if i == 0 {
            BoardCell::Empty
        } else {
            BoardCell::Filled
        }
    }
}

impl From<BoardCell> for u8 {
    fn from(cell: BoardCell) -> (code: u8) {
        match cell {
            BoardCell::Empty => 0,
            BoardCell::Filled => 1,
        }
    }
}

impl FromSpecImpl<BoardCell> for u8 {
    open spec fn obeys_from_spec() -> bool {
        true
    }

    open spec fn from_spec(cell: BoardCell) -> u8 {
        cell_code(cell)
    }
}

impl BitAnd for BoardCell {
    type Output = BoardCell;

    fn bitand(self, rhs: BoardCell) -> (out: BoardCell) {
        match (self, rhs) {
            (BoardCell::Filled, BoardCell::Filled) => BoardCell::Filled,
            _ => BoardCell::Empty,
        }
    }
}

impl BitAndSpecImpl for BoardCell {
    open spec fn obeys_bitand_spec() -> bool {
        true
    }

    open spec fn bitand_req(self, rhs: BoardCell) -> bool {
        true
    }

    open spec fn bitand_spec(self, rhs: BoardCell) -> BoardCell {
        cell_and(self, rhs)
    }
}

impl BitOr for BoardCell {
    type Output = BoardCell;

    fn bitor(self, rhs: BoardCell) -> (out: BoardCell) {
        match (self, rhs) {
            (BoardCell::Empty, BoardCell::Empty) => BoardCell::Empty,
            _ => BoardCell::Filled,
        }
    }
}

impl BitOrSpecImpl for BoardCell {
    open spec fn obeys_bitor_spec() -> bool {
        true
    }

    open spec fn bitor_req(self, rhs: BoardCell) -> bool {
        true
    }

    open spec fn bitor_spec(self, rhs: BoardCell) -> BoardCell {
        cell_or(self, rhs)
    }
}

/// Whether `(r, c)` names a position of the playfield.
pub open spec fn in_board(r: int, c: int) -> bool {
    0 <= r < BOARD_HEIGHT && 0 <= c < BOARD_WIDTH
}

/// Whether `g` has the dimensions of the playfield.
pub open spec fn is_board(g: Grid) -> bool {
    &&& g.len() == BOARD_HEIGHT
    &&& forall|r: int| 0 <= r < BOARD_HEIGHT ==> (#[trigger] g[r]).len() == BOARD_WIDTH
}

/// Whether the cell of `g` at `(r, c)` is `Filled`.
pub open spec fn filled_at(g: Grid, r: int, c: int) -> bool {
    g[r][c] == BoardCell::Filled
}

/// A row of the playfield with every cell `Empty`.
pub open spec fn empty_row() -> Seq<BoardCell> {
    Seq::new(BOARD_WIDTH as nat, |c: int| BoardCell::Empty)
}

/// The playfield with every cell `Empty`.
pub open spec fn empty_grid() -> Grid {
    Seq::new(BOARD_HEIGHT as nat, |r: int| empty_row())
}

/// The cell-by-cell disjunction of two boards.
pub open spec fn merged(a: Grid, b: Grid) -> Grid {
    Seq::new(
        BOARD_HEIGHT as nat,
        |r: int| Seq::new(BOARD_WIDTH as nat, |c: int| cell_or(a[r][c], b[r][c])),
    )
}

/// Whether some position is `Filled` in both boards.
pub open spec fn overlap(a: Grid, b: Grid) -> bool {
    exists|r: int, c: int| in_board(r, c) && #[trigger] filled_at(a, r, c) && filled_at(b, r, c)
}

/// The board without its row `i`: a fresh empty row on top, the rows above
/// `i` one position further down, the rows below `i` where they were.
pub open spec fn without_row(g: Grid, i: int) -> Grid {
    seq![empty_row()] + g.subrange(0, i) + g.subrange(i + 1, BOARD_HEIGHT as int)
}

/// The board made from a list of rows of any length. The list is aligned to
/// the bottom of the board: missing rows are empty rows on top, and rows of
/// the list past the height of the board are left out.
pub open spec fn fitted(rows: Grid) -> Grid {
    let n = if rows.len() < BOARD_HEIGHT {
        rows.len() as int
    } else {
        BOARD_HEIGHT as int
    };
    Seq::new(
        BOARD_HEIGHT as nat,
        |r: int|
            if r < BOARD_HEIGHT - n {
                empty_row()
            } else {
                rows[r - (BOARD_HEIGHT - n)]
            },
    )
}

/// The rows of a board's storage as a grid.
pub open spec fn matrix_view(m: BoardMatrix) -> Grid {
    Seq::new(BOARD_HEIGHT as nat, |r: int| m[r]@)
}

/// A list of stored rows as a grid.
pub open spec fn rows_view(rows: Seq<[BoardCell; BOARD_WIDTH]>) -> Grid {
    Seq::new(rows.len(), |r: int| rows[r]@)
}

/// A fixed-size playfield of `BOARD_HEIGHT` rows by `BOARD_WIDTH` columns.
#[derive(Debug, PartialEq, Eq)]
pub struct Board(pub BoardMatrix);

impl View for Board {
    type V = Grid;

    open spec fn view(&self) -> Grid {
        matrix_view(self.0)
    }
}

impl Board {
    /// The storage of a board with every cell `Empty`.
    pub fn empty() -> (m: BoardMatrix)
        ensures
            matrix_view(m) == empty_grid(),
    {
        let m: BoardMatrix = [[BoardCell::Empty; BOARD_WIDTH]; BOARD_HEIGHT];
        assert(matrix_view(m) =~~= empty_grid());
        m
    }

    /// A board with every cell `Empty`.
    pub fn new() -> (board: Board)
        ensures
            board@ == empty_grid(),
    {
        Board(Board::empty())
    }

    /// The rows of the board, from the top row down.
    pub fn iter(&self) -> (rows: core::slice::Iter<'_, [BoardCell; BOARD_WIDTH]>)
        ensures
            rows.remaining() == self.0@.as_ref(),
    {
        self.0.iter()
    }

    /// The cell-by-cell disjunction of this board and `b2`.
    pub fn merge_with(&self, b2: &Board) -> (result: Board)
        ensures
            result@ == merged(self@, b2@),
    {
        Board::merge(self, b2)
    }

    /// Whether some position is `Filled` in both this board and `b2`.
    pub fn check_intersects_with(&self, b2: &Board) -> (hit: bool)
        ensures
            hit == overlap(self@, b2@),
    {
        Board::intersection(self, b2)
    }

    /// Removes row `i`. Every row above it moves down by one, a new empty
    /// row becomes the top row, and the rows below `i` stay.
    pub fn remove_line(&mut self, i: usize)
        requires
            i < BOARD_HEIGHT,
        ensures
            final(self)@ == without_row(old(self)@, i as int),
            is_board(final(self)@),
            final(self)@[0] == empty_row(),
            forall|r: int| 1 <= r <= i ==> final(self)@[r] == old(self)@[r - 1],
            forall|r: int| i < r < BOARD_HEIGHT ==> final(self)@[r] == old(self)@[r],
    {
        let mut rows: Vec<[BoardCell; BOARD_WIDTH]> = Vec::new();
        rows.push([BoardCell::Empty; BOARD_WIDTH]);
        let mut r: usize = 0;
        while r < BOARD_HEIGHT
            invariant
                r <= BOARD_HEIGHT,
                i < BOARD_HEIGHT,
                rows@.len() == (if r <= i { r + 1 } else { r as int }),
                rows@[0]@ == empty_row(),
                forall|k: int| 1 <= k <= i && k <= r ==> rows@[k] == self.0[k - 1],
                forall|k: int| i < k < r ==> rows@[k] == self.0[k],
            decreases BOARD_HEIGHT - r,
        {
            if r != i {
                rows.push(self.0[r]);
            }
            r += 1;
        }
        *self = Board::from(&rows);
    }

    /// The cell-by-cell disjunction of two boards.
    pub fn merge(b1: &Board, b2: &Board) -> (result: Board)
        ensures
            result@ == merged(b1@, b2@),
    {
        let mut result = Board::new();
        let mut r: usize = 0;
        while r < BOARD_HEIGHT
            invariant
                r <= BOARD_HEIGHT,
                forall|i: int, j: int|
                    0 <= i < r && 0 <= j < BOARD_WIDTH ==> result.0[i][j] == cell_or(
                        b1.0[i][j],
                        b2.0[i][j],
                    ),
            decreases BOARD_HEIGHT - r,
        {
            let mut c: usize = 0;
            while c < BOARD_WIDTH
                invariant
                    r < BOARD_HEIGHT,
                    c <= BOARD_WIDTH,
                    forall|i: int, j: int|
                        0 <= i < r && 0 <= j < BOARD_WIDTH ==> result.0[i][j] == cell_or(
                            b1.0[i][j],
                            b2.0[i][j],
                        ),
                    forall|j: int|
                        0 <= j < c ==> result.0[r as int][j] == cell_or(
                            b1.0[r as int][j],
                            b2.0[r as int][j],
                        ),
                decreases BOARD_WIDTH - c,
            {
                result.0[r][c] = b1.0[r][c] | b2.0[r][c];
                c += 1;
            }
            r += 1;
        }
        assert(result@ =~~= merged(b1@, b2@));
        result
    }

    /// Whether some position is `Filled` in both boards.
    pub fn intersection(b1: &Board, b2: &Board) -> (hit: bool)
        ensures
            hit == overlap(b1@, b2@),
    {
        let mut r: usize = 0;
        while r < BOARD_HEIGHT
            invariant
                r <= BOARD_HEIGHT,
                forall|i: int, j: int|
                    0 <= i < r && 0 <= j < BOARD_WIDTH ==> !(#[trigger] filled_at(b1@, i, j)
                        && filled_at(b2@, i, j)),
            decreases BOARD_HEIGHT - r,
        {
            let mut c: usize = 0;
            while c < BOARD_WIDTH
                invariant
                    r < BOARD_HEIGHT,
                    c <= BOARD_WIDTH,
                    forall|i: int, j: int|
                        0 <= i < r && 0 <= j < BOARD_WIDTH ==> !(#[trigger] filled_at(b1@, i, j)
                            && filled_at(b2@, i, j)),
                    forall|j: int|
                        0 <= j < c ==> !(#[trigger] filled_at(b1@, r as int, j) && filled_at(
                            b2@,
                            r as int,
                            j,
                        )),
                decreases BOARD_WIDTH - c,
            {
                if (b1.0[r][c] & b2.0[r][c]) == BoardCell::Filled {
                    assert(in_board(r as int, c as int) && filled_at(b1@, r as int, c as int)
                        && filled_at(b2@, r as int, c as int));
                    return true;
                }
                c += 1;
            }
            r += 1;
        }
        false
    }
}

impl From<BoardMatrix> for Board {
    fn from(m: BoardMatrix) -> (board: Board) {
        Board(m)
    }
}

impl FromSpecImpl<BoardMatrix> for Board {
    open spec fn obeys_from_spec() -> bool {
        true
    }

    open spec fn from_spec(m: BoardMatrix) -> Board {
        Board(m)
    }
}

/// A board is determined by its view: boards with equal views are equal.
pub proof fn lemma_board_by_view(a: Board, b: Board)
    requires
        a@ == b@,
    ensures
        a == b,
{
    assert forall|r: int| 0 <= r < BOARD_HEIGHT implies a.0[r] == b.0[r] by {
        assert(a@[r] == b@[r]);
        assert(a.0[r] =~= b.0[r]);
    }
    assert(a.0 =~= b.0);
}

impl From<&Vec<[BoardCell; BOARD_WIDTH]>> for Board {
    /// Makes a board from a list of rows of any length, aligned to the bottom
    /// of the board.
    fn from(m: &Vec<[BoardCell; BOARD_WIDTH]>) -> (board: Board)
        ensures
            board@ == fitted(rows_view(m@)),
    {
        let mut result = Board::empty();
        let n: usize = if m.len() < BOARD_HEIGHT {
            m.len()
        } else {
            BOARD_HEIGHT
        };
        let pad: usize = BOARD_HEIGHT - n;
        let mut r: usize = pad;
        assert forall|k: int| 0 <= k < pad implies (#[trigger] result[k])@ == empty_row() by {
            assert(matrix_view(result)[k] == empty_grid()[k]);
        }
        while r < BOARD_HEIGHT
            invariant
                pad <= r <= BOARD_HEIGHT,
                pad + n == BOARD_HEIGHT,
                n <= m@.len(),
                forall|k: int| 0 <= k < pad ==> (#[trigger] result[k])@ == empty_row(),
                forall|k: int| pad <= k < r ==> #[trigger] result[k] == m@[k - pad],
            decreases BOARD_HEIGHT - r,
        {
            result[r] = m[r - pad];
            r += 1;
        }
        let board = Board(result);
        assert(board@ =~~= fitted(rows_view(m@)));
        proof {
            let chosen = choose|b: Board| b@ == fitted(rows_view(m@));
            lemma_board_by_view(chosen, board);
        }
        board
    }
}

impl FromSpecImpl<&Vec<[BoardCell; BOARD_WIDTH]>> for Board {
    open spec fn obeys_from_spec() -> bool {
        true
    }

    /// The board whose rows are the fitted list. There is one: a board is
    /// determined by its view.
    open spec fn from_spec(m: &Vec<[BoardCell; BOARD_WIDTH]>) -> Board {
        choose|board: Board| board@ == fitted(rows_view(m@))
    }
}

/// Merging does not depend on the order of the two boards.
pub proof fn law_merge_commutative(a: Board, b: Board)
    ensures
        merged(a@, b@) == merged(b@, a@),
{
    assert(merged(a@, b@) =~~= merged(b@, a@));
}

/// Merging a board with itself gives the board back.
pub proof fn law_merge_idempotent(a: Board)
    ensures
        merged(a@, a@) == a@,
{
    assert(merged(a@, a@) =~~= a@);
}

/// Merging three boards does not depend on which two are merged first.
pub proof fn law_merge_associative(a: Board, b: Board, c: Board)
    ensures
        merged(merged(a@, b@), c@) == merged(a@, merged(b@, c@)),
{
    assert(merged(merged(a@, b@), c@) =~~= merged(a@, merged(b@, c@)));
}

/// Whether two boards overlap does not depend on their order.
pub proof fn law_intersection_symmetric(a: Board, b: Board)
    ensures
        overlap(a@, b@) == overlap(b@, a@),
{
    if overlap(a@, b@) {
        let (r, c) = choose|r: int, c: int|
            in_board(r, c) && #[trigger] filled_at(a@, r, c) && filled_at(b@, r, c);
    }
    if overlap(b@, a@) {
        let (r, c) = choose|r: int, c: int|
            in_board(r, c) && #[trigger] filled_at(b@, r, c) && filled_at(a@, r, c);
    }
}

} // verus!
