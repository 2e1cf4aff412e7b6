//! What happens when one shape is dropped straight down again and again:
//! the stack reaches the top, and the game ends.
use crate::models::board::{
    empty_grid, filled_at, in_board, is_board, merged, overlap, BoardCell, Grid, BOARD_HEIGHT,
    BOARD_WIDTH,
};
use crate::models::matrix::is_piece;
use crate::models::scene::{
    cleared, crosses_v, empty_rows, in_cells, is_complete, projection, SceneView,
};
use crate::models::shape::{catalogue, spawned, Placement, SHAPE_COUNT, SPAWN_X};
use vstd::prelude::*;

verus! {

/// The scene after the active piece has gone straight down, row by row,
/// until a step down is rejected. A piece whose corner is below the board
/// is at rest; a piece with a `Filled` cell rests before it gets there.
pub open spec fn rested(s: SceneView) -> SceneView
    decreases BOARD_HEIGHT - s.shape.y,
{
    if s.rejects_y(1) || s.shape.y >= BOARD_HEIGHT {
        s
    } else {
        rested(s.with_shape(s.shape.shifted_y(1)))
    }
}

/// The heap after `n` pieces with the given cells have each been spawned,
/// dropped straight down until they rest, and locked, with the complete
/// rows removed after each.
pub open spec fn stacked(cells: Grid, n: nat) -> Grid
    decreases n,
{
    if n == 0 {
        empty_grid()
    } else {
        rested(
            SceneView { shape: spawned(cells), heap: stacked(cells, (n - 1) as nat) },
        ).locked().swept().heap
    }
}

/// Whether a new piece with the given cells overlaps the heap that `n`
/// such pieces have left.
pub open spec fn spawn_collides(cells: Grid, n: nat) -> bool {
    (SceneView { shape: spawned(cells), heap: stacked(cells, n) }).collides()
}

/// Whether some `Filled` cell of the arrangement is on the board when a
/// piece with these cells spawns.
pub open spec fn shows_at_spawn(cells: Grid) -> bool {
    exists|r: int, c: int|
        in_cells(cells, r, c) && #[trigger] filled_at(cells, r, c) && r < BOARD_HEIGHT && SPAWN_X
            + c < BOARD_WIDTH
}

/// Every catalogue entry has a `Filled` cell on the board when it spawns.
pub proof fn lemma_catalogue_shows_at_spawn(index: int)
    requires
        0 <= index < SHAPE_COUNT,
    ensures
        shows_at_spawn(catalogue(index)),
{
    let cells = catalogue(index);
    assert(in_cells(cells, 1, 1) && filled_at(cells, 1, 1));
}

/// The piece with the given cells in the spawn column, at row offset `y`.
spec fn lowered(cells: Grid, y: int) -> Placement {
    spawned(cells).shifted_y(y)
}

/// Whether every cell that the placement fills is `Filled` in the heap.
spec fn covers(heap: Grid, p: Placement) -> bool {
    forall|r: int, c: int|
        in_board(r, c) && #[trigger] filled_at(projection(p), r, c) ==> filled_at(heap, r, c)
}

/// Whether the columns left of the spawn column are empty.
spec fn left_clear(heap: Grid) -> bool {
    forall|r: int, c: int| in_board(r, c) && c < SPAWN_X ==> !#[trigger] filled_at(heap, r, c)
}

/// Whether the piece at row offset `y` is above the bottom edge. At the
/// spawn row this is not asked.
spec fn above_bottom(cells: Grid, y: int) -> bool {
    y == 0 || !crosses_v(lowered(cells, y))
}

/// A piece above the bottom edge fills a position of the board.
proof fn lemma_projection_shows(cells: Grid, y: int) -> (at: (int, int))
    requires
        shows_at_spawn(cells),
        0 <= y,
        above_bottom(cells, y),
    ensures
        in_board(at.0, at.1),
        filled_at(projection(lowered(cells, y)), at.0, at.1),
{
    let (r, c) = choose|r: int, c: int|
        in_cells(cells, r, c) && #[trigger] filled_at(cells, r, c) && r < BOARD_HEIGHT && SPAWN_X
            + c < BOARD_WIDTH;
    let p = lowered(cells, y);
    assert(in_cells(p.cells, r, c) && filled_at(p.cells, r, c));
    (y + r, SPAWN_X + c)
}

/// A filter that every element passes keeps the sequence.
proof fn lemma_filter_keeps_all<A>(s: Seq<A>, pred: spec_fn(A) -> bool)
    requires
        forall|i: int| 0 <= i < s.len() ==> pred(#[trigger] s[i]),
    ensures
        s.filter(pred) == s,
    decreases s.len(),
{
    reveal(Seq::filter);
    if s.len() > 0 {
        lemma_filter_keeps_all(s.drop_last(), pred);
    }
}

/// A heap whose left columns are empty has no complete row: removing the
/// complete rows leaves it as it is.
proof fn lemma_left_clear_stays(heap: Grid)
    requires
        is_board(heap),
        left_clear(heap),
    ensures
        cleared(heap) == heap,
{
    let pred = |row: Seq<BoardCell>| !is_complete(row);
    assert forall|i: int| 0 <= i < heap.len() implies pred(#[trigger] heap[i]) by {
        assert(in_board(i, 0) && !filled_at(heap, i, 0));
    }
    lemma_filter_keeps_all(heap, pred);
}

/// A piece that starts above a row where it has no room comes to rest
/// above that row, on a free position above the bottom edge.
proof fn lemma_rests_above(cells: Grid, heap: Grid, y: int, stop: int) -> (rest: int)
    requires
        shows_at_spawn(cells),
        0 <= y < stop <= BOARD_HEIGHT,
        above_bottom(cells, y),
        !overlap(heap, projection(lowered(cells, y))),
        crosses_v(lowered(cells, stop)) || overlap(heap, projection(lowered(cells, stop))),
    ensures
        y <= rest < stop,
        rested(SceneView { shape: lowered(cells, y), heap }) == (SceneView {
            shape: lowered(cells, rest),
            heap,
        }),
        above_bottom(cells, rest),
        !overlap(heap, projection(lowered(cells, rest))),
    decreases stop - y,
{
    let s = SceneView { shape: lowered(cells, y), heap };
    if s.rejects_y(1) {
        y
    } else {
        lemma_rests_above(cells, heap, y + 1, stop)
    }
}

/// Locking a piece of the spawn column keeps the left columns empty and
/// makes the heap cover the piece.
proof fn lemma_lock_covers(cells: Grid, heap: Grid, y: int)
    requires
        is_board(heap),
        left_clear(heap),
    ensures
        is_board(merged(heap, projection(lowered(cells, y)))),
        left_clear(merged(heap, projection(lowered(cells, y)))),
        covers(merged(heap, projection(lowered(cells, y))), lowered(cells, y)),
{
    let p = lowered(cells, y);
    let locked = merged(heap, projection(p));
    assert forall|r: int, c: int| in_board(r, c) && c < SPAWN_X implies !#[trigger] filled_at(
        locked,
        r,
        c,
    ) by {
        assert(!filled_at(heap, r, c));
    }
}

/// Once the heap covers a piece at row offset `top`, pieces that are
/// dropped after it end the game before `top` more have landed.
proof fn lemma_stack_reaches_top(cells: Grid, n: nat, top: int)
    requires
        is_piece(cells),
        shows_at_spawn(cells),
        1 <= n,
        0 <= top <= BOARD_HEIGHT - n,
        above_bottom(cells, top),
        is_board(stacked(cells, n)),
        left_clear(stacked(cells, n)),
        covers(stacked(cells, n), lowered(cells, top)),
    ensures
        exists|m: nat| m <= BOARD_HEIGHT && #[trigger] spawn_collides(cells, m),
    decreases top,
{
    let heap = stacked(cells, n);
    // The heap covers the piece at `top`: a piece that gets there overlaps it.
    let at = lemma_projection_shows(cells, top);
    assert(filled_at(heap, at.0, at.1));
    if !spawn_collides(cells, n) {
        // The next piece comes to rest above `top`, and the heap covers it there.
        let rest = lemma_rests_above(cells, heap, 0, top);
        lemma_lock_covers(cells, heap, rest);
        lemma_left_clear_stays(merged(heap, projection(lowered(cells, rest))));
        lemma_stack_reaches_top(cells, n + 1, rest);
    }
}

/// Dropping one shape straight down again and again ends the game: after
/// no more pieces than the board has rows, the stack has reached the top
/// and a new piece of that shape overlaps the heap.
pub proof fn law_stacking_ends_game(cells: Grid)
    requires
        is_piece(cells),
        shows_at_spawn(cells),
    ensures
        exists|n: nat| n <= BOARD_HEIGHT && #[trigger] spawn_collides(cells, n),
{
    let heap = empty_grid();
    assert(stacked(cells, 0) == heap);
    // On the empty heap the first piece stops at the bottom edge at the latest.
    assert(crosses_v(lowered(cells, BOARD_HEIGHT as int))) by {
        let (r, c) = choose|r: int, c: int|
            in_cells(cells, r, c) && #[trigger] filled_at(cells, r, c) && r < BOARD_HEIGHT
                && SPAWN_X + c < BOARD_WIDTH;
        let p = lowered(cells, BOARD_HEIGHT as int);
        assert(in_cells(p.cells, r, c) && filled_at(p.cells, r, c) && p.y + r >= BOARD_HEIGHT);
    }
    let rest = lemma_rests_above(cells, heap, 0, BOARD_HEIGHT as int);
    lemma_lock_covers(cells, heap, rest);
    lemma_left_clear_stays(merged(heap, projection(lowered(cells, rest))));
    lemma_stack_reaches_top(cells, 1, rest);
}

} // verus!
