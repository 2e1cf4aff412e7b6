//! The heap of locked cells as a value of its own.
use crate::models::board::{empty_grid, matrix_view, Board, BoardMatrix, Grid};
use vstd::prelude::*;

verus! {

/// The cells that locked pieces have left on the playfield.
#[derive(Debug)]
pub struct BlockHeap(pub BoardMatrix);

impl View for BlockHeap {
    type V = Grid;

    open spec fn view(&self) -> Grid {
        matrix_view(self.0)
    }
}

impl BlockHeap {
    /// A heap without any locked cell.
    pub fn new() -> (heap: BlockHeap)
        ensures
            heap@ == empty_grid(),
    {
        BlockHeap(Board::empty())
    }
}

} // verus!
