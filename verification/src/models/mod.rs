//! The game's data model, leaf first: cells and boards, piece matrices, the
//! active piece, the scene that owns both, and the game around the scene.
pub mod block_heap;
pub mod board;
pub mod dir;
pub mod game;
pub mod game_status;
pub mod matrix;
pub mod scene;
pub mod shape;
pub mod stacking;
