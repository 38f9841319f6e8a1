//! One axis-aligned square of the playfield, in fixed-point coordinates.

use vstd::prelude::*;
use crate::config::{GRID_SIZE, WIDTH, X_LIMIT};

verus! {

/// A square rendered at `(x, y)` with extent `w` by `h`, all in coordinate
/// units (`SCALE`-ths of a pixel). Every square of the game is one grid
/// cell in size: `w == h == GRID_SIZE`.
#[derive(Clone, Copy, PartialEq, Eq, Structural, Debug)]
pub struct Square {
    pub x: i64,
    pub y: i64,
    pub w: i64,
    pub h: i64,
}

/// The square is one grid cell wide and tall.
pub open spec fn is_unit_square(s: Square) -> bool {
    s.w == GRID_SIZE && s.h == GRID_SIZE
}

/// The square touches or overlaps the left or right edge of the grid.
pub open spec fn out_of_bounds(s: Square) -> bool {
    s.x <= 0 || s.x + GRID_SIZE >= WIDTH * GRID_SIZE
}

/// The square's horizontal position is within the clamp range, so that
/// displacement arithmetic on it cannot overflow.
pub open spec fn x_in_limit(s: Square) -> bool {
    -X_LIMIT <= s.x <= X_LIMIT
}

} // verus!
