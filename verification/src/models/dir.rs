//! The directions that name a quarter turn.
use vstd::prelude::*;

verus! {

/// The vertical edge from which a turn starts to read the columns.
#[derive(Debug, Clone, Copy, PartialEq, Eq, Structural)]
pub enum VDir {
    Top,
    Bottom,
}

/// The horizontal edge from which a turn starts to read the columns.
#[derive(Debug, Clone, Copy, PartialEq, Eq, Structural)]
pub enum HDir {
    Left,
    Right,
}

/// Whether the pair of directions names a quarter turn. There are two:
/// `(Bottom, Left)` turns clockwise, `(Top, Right)` turns counter-clockwise.
pub open spec fn is_rotation(v_dir: VDir, h_dir: HDir) -> bool {
    ||| (v_dir == VDir::Bottom && h_dir == HDir::Left)
    ||| (v_dir == VDir::Top && h_dir == HDir::Right)
}

} // verus!
