//! The permanently placed squares, kept one per grid cell and keyed by the
//! integer cell coordinates a square's corner falls in.

use vstd::prelude::*;
use vstd::arithmetic::div_mod::{lemma_div_nonincreasing, lemma_div_pos_is_pos};
use crate::config::{GRID_SIZE, X_LIMIT};
use crate::square::{is_unit_square, Square};

verus! {

/// Index of the grid cell a coordinate falls in: the coordinate divided by
/// `GRID_SIZE`, truncated toward zero (the rounding a float-to-integer
/// conversion would apply).
pub open spec fn cell_of(v: int) -> int {
    if v >= 0 {
        v / (GRID_SIZE as int)
    } else {
        -((-v) / (GRID_SIZE as int))
    }
}

/// A truncated cell index keeps the coordinate's sign and never grows past
/// the coordinate's own magnitude.
pub proof fn lemma_cell_of_bounds(v: int)
    requires
        -X_LIMIT <= v <= X_LIMIT,
    ensures
        -X_LIMIT <= cell_of(v) <= X_LIMIT,
        v >= 0 ==> 0 <= cell_of(v) <= v,
        v < 0 ==> v <= cell_of(v) <= 0,
{
    if v >= 0 {
        lemma_div_pos_is_pos(v, GRID_SIZE as int);
        lemma_div_nonincreasing(v, GRID_SIZE as int);
    } else {
        lemma_div_pos_is_pos(-v, GRID_SIZE as int);
        lemma_div_nonincreasing(-v, GRID_SIZE as int);
    }
}

/// Runtime form of `cell_of`.
pub fn cell_index(v: i64) -> (c: i64)
    requires
        -X_LIMIT <= v <= X_LIMIT,
    ensures
        c == cell_of(v as int),
{
    if v >= 0 {
        v / GRID_SIZE
    } else {
        -((-v) / GRID_SIZE)
    }
}

/// One frozen cell: the key it is stored under and the square drawn there.
#[derive(Clone, Copy, PartialEq, Eq, Structural, Debug)]
pub struct FrozenEntry {
    pub col: i64,
    pub row: i64,
    pub square: Square,
}

/// The entry a square freezes into, keyed by the cell its corner falls in.
pub open spec fn entry_for(s: Square) -> FrozenEntry {
    FrozenEntry { col: cell_of(s.x as int) as i64, row: cell_of(s.y as int) as i64, square: s }
}

/// Some entry carries the given key.
pub open spec fn has_key(f: Seq<FrozenEntry>, col: int, row: int) -> bool {
    exists|i: int| 0 <= i < f.len() && f[i].col == col && f[i].row == row
}

/// Position of an entry carrying the given key (unique when keys are unique).
pub open spec fn key_index(f: Seq<FrozenEntry>, col: int, row: int) -> int {
    choose|i: int| 0 <= i < f.len() && f[i].col == col && f[i].row == row
}

/// Extending the store by one entry: it replaces the entry already at its
/// key, or is appended if the key is new (last write wins, as extending a
/// hash map behaves).
pub open spec fn insert_entry(f: Seq<FrozenEntry>, e: FrozenEntry) -> Seq<FrozenEntry> {
    if has_key(f, e.col as int, e.row as int) {
        f.update(key_index(f, e.col as int, e.row as int), e)
    } else {
        f.push(e)
    }
}

/// Freezing a whole block: its squares inserted in order, first to last.
pub open spec fn insert_all(f: Seq<FrozenEntry>, squares: Seq<Square>) -> Seq<FrozenEntry>
    decreases squares.len(),
{
    if squares.len() == 0 {
        f
    } else {
        insert_entry(insert_all(f, squares.drop_last()), entry_for(squares.last()))
    }
}

/// No two entries share a key: a key addresses at most one frozen square.
pub open spec fn unique_keys(f: Seq<FrozenEntry>) -> bool {
    forall|i: int, j: int|
        #![trigger f[i], f[j]]
        0 <= i < f.len() && 0 <= j < f.len() && i != j ==> !(f[i].col == f[j].col && f[i].row
            == f[j].row)
}

/// Every entry is keyed by its own square's cell, and its square is one
/// grid cell in size.
pub open spec fn entries_consistent(f: Seq<FrozenEntry>) -> bool {
    forall|i: int|
        0 <= i < f.len() ==> (#[trigger] f[i]).col == cell_of(f[i].square.x as int)
            && f[i].row == cell_of(f[i].square.y as int) && is_unit_square(f[i].square)
}

/// The frozen squares of one game, in placement order.
pub struct FrozenGrid {
    pub entries: Vec<FrozenEntry>,
}

impl View for FrozenGrid {
    type V = Seq<FrozenEntry>;

    open spec fn view(&self) -> Seq<FrozenEntry> {
        self.entries@
    }
}

impl FrozenGrid {
    /// Keys are unique and every entry is keyed by its own square.
    pub open spec fn wf(self) -> bool {
        unique_keys(self@) && entries_consistent(self@)
    }

    /// An empty store.
    pub fn new() -> (g: FrozenGrid)
        ensures
            g@ == Seq::<FrozenEntry>::empty(),
            g.wf(),
    {
        FrozenGrid { entries: Vec::new() }
    }

    /// Number of frozen entries.
    pub fn len(&self) -> (n: usize)
        ensures
            n == self@.len(),
    {
        self.entries.len()
    }

    /// Freeze one square at the cell its corner falls in, replacing any
    /// square already frozen at that cell.
    pub fn insert_square(&mut self, s: Square)
        requires
            old(self).wf(),
            is_unit_square(s),
            -X_LIMIT <= s.x <= X_LIMIT,
            -X_LIMIT <= s.y <= X_LIMIT,
        ensures
            final(self).wf(),
            final(self)@ == insert_entry(old(self)@, entry_for(s)),
    {
        let col = cell_index(s.x);
        let row = cell_index(s.y);
        let e = FrozenEntry { col, row, square: s };
        proof {
            lemma_cell_of_bounds(s.x as int);
            lemma_cell_of_bounds(s.y as int);
            assert(e == entry_for(s));
        }
        let n: usize = self.entries.len();
        let mut i: usize = 0;
        while i < n
            invariant
                n == self@.len(),
                0 <= i <= n,
                self@ == old(self)@,
                self.wf(),
                e.col == col && e.row == row && e.square == s,
                e == entry_for(s),
                is_unit_square(s),
                e.col == cell_of(s.x as int) && e.row == cell_of(s.y as int),
                forall|k: int| 0 <= k < i ==> !((#[trigger] self@[k]).col == e.col && self@[k].row == e.row),
            decreases n - i,
        {
            if self.entries[i].col == col && self.entries[i].row == row {
                proof {
                    let ii = i as int;
                    assert(self@[ii].col == e.col && self@[ii].row == e.row);
                    assert(has_key(self@, e.col as int, e.row as int));
                    let j = key_index(self@, e.col as int, e.row as int);
                    assert(0 <= j < self@.len() && self@[j].col == e.col && self@[j].row == e.row);
                    if j != ii {
                        assert(!(self@[ii].col == self@[j].col && self@[ii].row == self@[j].row));
                    }
                    assert(j == ii);
                }
                self.entries[i] = e;
                proof {
                    let ii = i as int;
                    assert(self@ == old(self)@.update(ii, e));
                    assert forall|p: int, q: int|
                        0 <= p < self@.len() && 0 <= q < self@.len() && p != q implies !(
                    (#[trigger] self@[p]).col == (#[trigger] self@[q]).col && self@[p].row
                        == self@[q].row) by {
                        assert(old(self)@[p].col == self@[p].col || p == ii);
                        assert(old(self)@[q].col == self@[q].col || q == ii);
                        assert(old(self)@[ii].col == e.col && old(self)@[ii].row == e.row);
                    }
                }
                return ;
            }
            i += 1;
        }
        proof {
            assert(forall|k: int|
                0 <= k < self@.len() ==> !((#[trigger] self@[k]).col == e.col && self@[k].row
                    == e.row));
            assert(!has_key(self@, e.col as int, e.row as int));
        }
        self.entries.push(e);
    }
}

} // verus!
