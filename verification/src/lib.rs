//! Rules engine of a falling-block puzzle: the playfield, the pieces, and the
//! transitions that move, rotate, lock and clear them.
pub mod models;
