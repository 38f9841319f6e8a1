//! The game's general guarantees, stated over the same spec functions the
//! operations' contracts use and proved once for all inputs.

use vstd::prelude::*;
use vstd::arithmetic::div_mod::{lemma_div_is_ordered, lemma_div_multiples_vanish, lemma_remainder};
use crate::config::{spec_block_size, GRID_SIZE, SPEED_MAX, START_SPEED, WIDTH};
use crate::frozen::{cell_of, unique_keys, FrozenEntry};
use crate::game::{checked_direction, next_speed, spawn_shape, valid_offset};
use crate::square::{is_unit_square, Square};

verus! {

/// The size of a block is a function of the level alone: three squares on
/// levels 1 through 3, two on levels 4 through 6, one from level 7 on.
pub proof fn lemma_block_size_bands(level: int)
    requires
        1 <= level,
    ensures
        level <= 3 ==> spec_block_size(level) == 3,
        4 <= level <= 6 ==> spec_block_size(level) == 2,
        7 <= level ==> spec_block_size(level) == 1,
{
}

/// A freshly spawned block at a valid offset lies fully inside the grid:
/// each of its squares is one cell in size, starts at or right of the left
/// wall, ends strictly left of the right wall, and continues the previous
/// square with no gap.
pub proof fn lemma_spawned_block_in_grid(a: Seq<Square>, x0: int, n: int, y: int)
    requires
        spawn_shape(a, x0, n, y),
        valid_offset(x0, n),
        1 <= n,
    ensures
        forall|i: int|
            0 <= i < a.len() ==> 0 <= (#[trigger] a[i]).x && a[i].x + GRID_SIZE < WIDTH * GRID_SIZE
                && a[i].y == y && is_unit_square(a[i]),
        forall|i: int| #![trigger a[i]]
            0 <= i < a.len() - 1 ==> a[i + 1].x == a[i].x + GRID_SIZE,
{
    assert forall|i: int|
        0 <= i < a.len() implies 0 <= (#[trigger] a[i]).x && a[i].x + GRID_SIZE < WIDTH * GRID_SIZE
        && a[i].y == y && is_unit_square(a[i]) by {
        assert(a[i].x == x0 + i * GRID_SIZE);
        assert(i * GRID_SIZE <= (n - 1) * GRID_SIZE) by (nonlinear_arith)
            requires
                i <= n - 1,
        ;
        assert(0 <= i * GRID_SIZE) by (nonlinear_arith)
            requires
                0 <= i,
        ;
    }
}

/// Two bounds checks with no movement in between leave the direction as it
/// was: the flip re-fires on every check made while a square stands at a
/// wall, so a pair of checks on the same positions always cancels.
pub proof fn lemma_bounds_check_twice_restores_direction(a: Seq<Square>, d: int)
    ensures
        checked_direction(a, checked_direction(a, d)) == d,
{
}

/// A cell key addresses at most one frozen square: in a store with unique
/// keys, two entries sharing a key are the same entry.
pub proof fn lemma_frozen_key_addresses_one_square(f: Seq<FrozenEntry>, i: int, j: int)
    requires
        unique_keys(f),
        0 <= i < f.len(),
        0 <= j < f.len(),
        f[i].col == f[j].col,
        f[i].row == f[j].row,
    ensures
        i == j,
{
}

/// The truncated cell key of a coordinate on the grid addresses exactly
/// the cell the coordinate falls in: it is the one integer `c` with
/// `c * GRID_SIZE <= v < (c + 1) * GRID_SIZE`.
pub proof fn lemma_cell_key_round_trip(v: int)
    requires
        0 <= v,
    ensures
        cell_of(v) * GRID_SIZE <= v < (cell_of(v) + 1) * GRID_SIZE,
        forall|c: int| #[trigger] (c * GRID_SIZE) <= v < (c + 1) * GRID_SIZE ==> c == cell_of(v),
{
    lemma_remainder(v, GRID_SIZE as int);
    assert(cell_of(v) * GRID_SIZE <= v < (cell_of(v) + 1) * GRID_SIZE);
    assert forall|c: int| #[trigger] (c * GRID_SIZE) <= v < (c + 1) * GRID_SIZE implies c == cell_of(
        v,
    ) by {
        let q = cell_of(v);
        if c < q {
            assert((c + 1) * GRID_SIZE <= q * GRID_SIZE) by (nonlinear_arith)
                requires
                    c + 1 <= q,
            ;
        }
        if c > q {
            assert((q + 1) * GRID_SIZE <= c * GRID_SIZE) by (nonlinear_arith)
                requires
                    q + 1 <= c,
            ;
        }
    }
}

/// The speed never falls across a placement, never passes its cap, and
/// grows strictly until the cap is reached.
pub proof fn lemma_speed_strictly_increases(s: int)
    requires
        START_SPEED <= s <= SPEED_MAX,
    ensures
        s <= next_speed(s) <= SPEED_MAX,
        s * 27 / 20 <= SPEED_MAX ==> next_speed(s) > s,
{
    lemma_div_is_ordered(s * 20, s * 27, 20);
    lemma_div_multiples_vanish(s, 20);
    lemma_div_is_ordered(20 * (s + 1), s * 27, 20);
    lemma_div_multiples_vanish(s + 1, 20);
}

} // verus!
