//! The simulation state machine: a block of unit squares slides across the
//! grid, bounces off the walls, and is frozen in place on the player's
//! signal, after which the level rises, the row moves up (wrapping to the
//! bottom), the speed grows by 35%, and a new block spawns at a random
//! horizontal offset.

use vstd::prelude::*;
use vstd::arithmetic::div_mod::{lemma_div_is_ordered, lemma_div_multiples_vanish};
use crate::config::{
    block_size, spec_block_size, DT_MAX, GRID_SIZE, HEIGHT, SCALE, SPEED_MAX, START_SPEED, WIDTH,
    X_LIMIT,
};
use crate::frozen::{insert_all, FrozenGrid};
use crate::rng::random_below;
use crate::square::{is_unit_square, out_of_bounds, x_in_limit, Square};

verus! {

/// A key delivered by the host: the designated place key, or any other.
#[derive(Clone, Copy, PartialEq, Eq, Structural, Debug)]
pub enum Key {
    Space,
    Other,
}

/// Every square of a well-formed active block is one grid cell in size,
/// sits on the given row, and is within the clamp range horizontally.
pub open spec fn active_wf(a: Seq<Square>, y: int) -> bool {
    forall|i: int|
        0 <= i < a.len() ==> is_unit_square(#[trigger] a[i]) && a[i].y == y && x_in_limit(a[i])
}

/// Unclamped displacement of one tick, in coordinate units: the speed
/// multiplier times the elapsed time times one cell's width. Speed and time
/// are in `SCALE`-ths, so the product is scaled back down by `SCALE * SCALE`.
pub open spec fn step_units(speed: int, dt: int) -> int {
    speed * dt * GRID_SIZE / (SCALE * SCALE)
}

/// Keep a coordinate inside the range where motion arithmetic is exact.
pub open spec fn clamp_x(x: int) -> int {
    if x < -X_LIMIT {
        -X_LIMIT as int
    } else if x > X_LIMIT {
        X_LIMIT as int
    } else {
        x
    }
}

/// Where one tick moves a square standing at `x`.
pub open spec fn moved_x(x: int, speed: int, direction: int, dt: int) -> int {
    clamp_x(x + direction * step_units(speed, dt))
}

/// Some active square touches or overlaps a wall of the grid.
pub open spec fn any_out(a: Seq<Square>) -> bool {
    exists|i: int| 0 <= i < a.len() && out_of_bounds(#[trigger] a[i])
}

/// Direction after one bounds check: reversed while any square is at a
/// wall, kept otherwise.
pub open spec fn checked_direction(a: Seq<Square>, d: int) -> int {
    if any_out(a) {
        -d
    } else {
        d
    }
}

/// Row of the next block: one grid step up, wrapping to the bottom row once
/// it would go below zero.
pub open spec fn next_y(y: int) -> int {
    if y - GRID_SIZE < 0 {
        HEIGHT * GRID_SIZE - GRID_SIZE
    } else {
        y - GRID_SIZE
    }
}

/// Speed after one placement: grown by 35% (a factor of 27/20 in fixed
/// point), saturating at `SPEED_MAX`.
pub open spec fn next_speed(s: int) -> int {
    if s * 27 / 20 > SPEED_MAX {
        SPEED_MAX as int
    } else {
        s * 27 / 20
    }
}

/// Level after one placement, saturating at the machine limit.
pub open spec fn next_level(l: int) -> int {
    if l < i64::MAX {
        l + 1
    } else {
        l
    }
}

/// A freshly spawned block: `n` contiguous unit squares on row `y`, the
/// leftmost at `x0`.
pub open spec fn spawn_shape(a: Seq<Square>, x0: int, n: int, y: int) -> bool {
    &&& a.len() == n
    &&& forall|i: int|
        0 <= i < n ==> (#[trigger] a[i]).x == x0 + i * GRID_SIZE && a[i].y == y
            && is_unit_square(a[i])
}

/// The horizontal offsets a block of `n` squares may spawn at: those the
/// random draw ranges over, keeping the whole block on the grid.
pub open spec fn valid_offset(x0: int, n: int) -> bool {
    0 <= x0 < (WIDTH - n) * GRID_SIZE
}

/// The fields a tick never touches.
pub open spec fn same_config(pre: Game, post: Game) -> bool {
    &&& post.frozen_squares@ == pre.frozen_squares@
    &&& post.speed == pre.speed
    &&& post.level == pre.level
    &&& post.current_y == pre.current_y
}

/// Nothing changed at all.
pub open spec fn same_state(pre: Game, post: Game) -> bool {
    &&& same_config(pre, post)
    &&& post.active_squares@ == pre.active_squares@
    &&& post.direction == pre.direction
}

/// Every active square advanced by one tick's displacement; nothing else
/// about the squares changed.
pub open spec fn moved_active(
    pre: Seq<Square>,
    post: Seq<Square>,
    speed: int,
    direction: int,
    dt: int,
) -> bool {
    &&& post.len() == pre.len()
    &&& forall|i: int|
        0 <= i < pre.len() ==> (#[trigger] post[i]).x == moved_x(
            pre[i].x as int,
            speed,
            direction,
            dt,
        )
            && post[i].y == pre[i].y && post[i].w == pre[i].w && post[i].h == pre[i].h
}

/// One placement: the active block frozen cell by cell in order, the level
/// up by one, the row one step up (wrapping), the speed grown by 35%, and a
/// new block of the new level's size spawned at offset `x0` on the new row.
pub open spec fn place_shape(pre: Game, post: Game, x0: int) -> bool {
    &&& post.frozen_squares@ == insert_all(pre.frozen_squares@, pre.active_squares@)
    &&& post.level == next_level(pre.level as int)
    &&& post.current_y == next_y(pre.current_y as int)
    &&& post.speed == next_speed(pre.speed as int)
    &&& post.direction == pre.direction
    &&& valid_offset(x0, spec_block_size(next_level(pre.level as int)))
    &&& spawn_shape(
        post.active_squares@,
        x0,
        spec_block_size(next_level(pre.level as int)),
        next_y(pre.current_y as int),
    )
}

/// One tick taken while a block was already in motion: every square
/// advanced, then the direction reversed if the moved block stands at a
/// wall.
pub open spec fn ticked_moving(pre: Game, post: Game, dt: int) -> bool {
    &&& same_config(pre, post)
    &&& moved_active(pre.active_squares@, post.active_squares@, pre.speed as int, pre.direction as int, dt)
    &&& post.direction == checked_direction(post.active_squares@, pre.direction as int)
}

/// One tick taken with no block in play: a block of the level's size
/// spawned at offset `x0` on the current row, then advanced and
/// bounds-checked as any block is.
pub open spec fn ticked_spawning(pre: Game, post: Game, x0: int, dt: int) -> bool {
    &&& same_config(pre, post)
    &&& valid_offset(x0, spec_block_size(pre.level as int))
    &&& post.active_squares@.len() == spec_block_size(pre.level as int)
    &&& forall|i: int|
        0 <= i < post.active_squares@.len() ==> (#[trigger] post.active_squares@[i]).x == moved_x(
            x0 + i * GRID_SIZE,
            pre.speed as int,
            pre.direction as int,
            dt,
        ) && post.active_squares@[i].y == pre.current_y && is_unit_square(post.active_squares@[i])
    &&& post.direction == checked_direction(post.active_squares@, pre.direction as int)
}

/// All simulation state: the moving block, the placed cells, and the motion
/// parameters.
pub struct Game {
    /// The squares currently in motion, left to right.
    pub active_squares: Vec<Square>,
    /// The permanently placed squares, keyed by grid cell.
    pub frozen_squares: FrozenGrid,
    /// Speed multiplier, in `SCALE`-ths; grows with each placement.
    pub speed: i64,
    /// Direction of motion: `1` rightward, `-1` leftward.
    pub direction: i64,
    /// Level, starting at 1 and rising by one per placement.
    pub level: i64,
    /// Row the active block occupies, in coordinate units.
    pub current_y: i64,
}

impl Game {
    /// Invariant every operation preserves: the direction is a sign, the
    /// speed lies between its start value and its cap, the level is
    /// positive, the row is a cell-aligned coordinate on the grid, the
    /// active block is well formed on that row, and the frozen store keys
    /// are unique and consistent.
    pub open spec fn wf(self) -> bool {
        &&& self.direction == 1 || self.direction == -1
        &&& START_SPEED <= self.speed <= SPEED_MAX
        &&& 1 <= self.level
        &&& 0 <= self.current_y <= (HEIGHT - 1) * GRID_SIZE
        &&& self.current_y % GRID_SIZE == 0
        &&& active_wf(self.active_squares@, self.current_y as int)
        &&& self.frozen_squares.wf()
    }

    /// A fresh game: no squares yet, speed 1.5, moving right, level 1, the
    /// spawn row at the bottom of the grid.
    pub fn new() -> (g: Game)
        ensures
            g.wf(),
            g.active_squares@.len() == 0,
            g.frozen_squares@.len() == 0,
            g.speed == START_SPEED,
            g.direction == 1,
            g.level == 1,
            g.current_y == HEIGHT * GRID_SIZE - GRID_SIZE,
    {
        Game {
            active_squares: Vec::new(),
            frozen_squares: FrozenGrid::new(),
            speed: START_SPEED,
            direction: 1,
            level: 1,
            current_y: HEIGHT * GRID_SIZE - GRID_SIZE,
        }
    }

    /// Spawn a block of `size` contiguous unit squares on the current row,
    /// at a horizontal offset drawn uniformly from the positions that keep
    /// the whole block on the grid.
    pub fn spawn_block(&mut self, size: i64)
        requires
            old(self).wf(),
            old(self).active_squares@.len() == 0,
            1 <= size < WIDTH,
        ensures
            final(self).wf(),
            same_config(*old(self), *final(self)),
            final(self).direction == old(self).direction,
            exists|x0: int|
                valid_offset(x0, size as int) && spawn_shape(
                    final(self).active_squares@,
                    x0,
                    size as int,
                    old(self).current_y as int,
                ),
    {
        let max_x: i64 = (WIDTH - size) * GRID_SIZE;
        let x0: i64 = random_below(max_x);
        let mut index: i64 = 0;
        while index < size
            invariant
                0 <= index <= size,
                1 <= size < WIDTH,
                0 <= x0 < (WIDTH - size) * GRID_SIZE,
                self.active_squares@.len() == index,
                forall|i: int|
                    0 <= i < index ==> (#[trigger] self.active_squares@[i]).x == x0 + i * GRID_SIZE
                        && self.active_squares@[i].y == self.current_y && is_unit_square(
                        self.active_squares@[i],
                    ),
                self.frozen_squares@ == old(self).frozen_squares@,
                self.frozen_squares.wf(),
                self.speed == old(self).speed,
                self.direction == old(self).direction,
                self.level == old(self).level,
                self.current_y == old(self).current_y,
                old(self).wf(),
            decreases size - index,
        {
            let sq = Square {
                x: x0 + GRID_SIZE * index,
                y: self.current_y,
                w: GRID_SIZE,
                h: GRID_SIZE,
            };
            self.active_squares.push(sq);
            index += 1;
        }
        proof {
            assert(valid_offset(x0 as int, size as int));
            assert(spawn_shape(
                self.active_squares@,
                x0 as int,
                size as int,
                old(self).current_y as int,
            ));
        }
    }

    /// Advance every active square by `speed * dt * direction * GRID_SIZE`
    /// (scaled), clamping only at the far-away overflow guard.
    pub fn move_block(&mut self, dt: i64)
        requires
            old(self).wf(),
            0 <= dt <= DT_MAX,
        ensures
            final(self).wf(),
            same_config(*old(self), *final(self)),
            final(self).direction == old(self).direction,
            moved_active(
                old(self).active_squares@,
                final(self).active_squares@,
                old(self).speed as int,
                old(self).direction as int,
                dt as int,
            ),
    {
        proof {
            let s = old(self).speed as int;
            let t = dt as int;
            assert(s * t <= SPEED_MAX * DT_MAX && 0 <= s * t) by (nonlinear_arith)
                requires
                    START_SPEED <= s <= SPEED_MAX,
                    0 <= t <= DT_MAX,
            ;
        }
        let step: i64 = self.speed * dt * GRID_SIZE / (SCALE * SCALE);
        let dx: i64 = self.direction * step;
        let n: usize = self.active_squares.len();
        let mut i: usize = 0;
        while i < n
            invariant
                0 <= i <= n,
                n == self.active_squares@.len(),
                n == old(self).active_squares@.len(),
                -X_LIMIT * 8 <= dx <= X_LIMIT * 8,
                dx == old(self).direction * step_units(
                    old(self).speed as int,
                    dt as int,
                ),
                forall|k: int|
                    i <= k < n ==> #[trigger] self.active_squares@[k] == old(
                        self,
                    ).active_squares@[k],
                forall|k: int|
                    0 <= k < i ==> (#[trigger] self.active_squares@[k]).x == moved_x(
                        old(self).active_squares@[k].x as int,
                        old(self).speed as int,
                        old(self).direction as int,
                        dt as int,
                    ) && self.active_squares@[k].y == old(self).active_squares@[k].y
                        && self.active_squares@[k].w == old(self).active_squares@[k].w
                        && self.active_squares@[k].h == old(self).active_squares@[k].h,
                self.frozen_squares@ == old(self).frozen_squares@,
                self.frozen_squares.wf(),
                self.speed == old(self).speed,
                self.direction == old(self).direction,
                self.level == old(self).level,
                self.current_y == old(self).current_y,
                old(self).wf(),
            decreases n - i,
        {
            let sq = self.active_squares[i];
            proof {
                assert(x_in_limit(old(self).active_squares@[i as int]));
            }
            let raw: i64 = sq.x + dx;
            let nx: i64 = if raw < -X_LIMIT {
                -X_LIMIT
            } else if raw > X_LIMIT {
                X_LIMIT
            } else {
                raw
            };
            self.active_squares[i] = Square { x: nx, y: sq.y, w: sq.w, h: sq.h };
            i += 1;
        }
    }

    /// Reverse the direction if any active square touches or overlaps the
    /// left or right wall of the grid; the check re-fires on every call for
    /// which a square still stands at a wall.
    pub fn check_collision(&mut self)
        requires
            old(self).wf(),
        ensures
            final(self).wf(),
            same_config(*old(self), *final(self)),
            final(self).active_squares@ == old(self).active_squares@,
            final(self).direction == checked_direction(
                old(self).active_squares@,
                old(self).direction as int,
            ),
    {
        let mut collided: bool = false;
        let n: usize = self.active_squares.len();
        let mut i: usize = 0;
        while i < n
            invariant
                0 <= i <= n,
                n == self.active_squares@.len(),
                same_state(*old(self), *self),
                self.wf(),
                collided ==> any_out(self.active_squares@),
                !collided ==> forall|k: int|
                    0 <= k < i ==> !out_of_bounds(#[trigger] self.active_squares@[k]),
            ensures
                collided <==> any_out(self.active_squares@),
            decreases n - i,
        {
            let sq = self.active_squares[i];
            if sq.x <= 0 || sq.x + GRID_SIZE >= WIDTH * GRID_SIZE {
                collided = true;
                proof {
                    assert(out_of_bounds(self.active_squares@[i as int]));
                }
                break ;
            }
            i += 1;
        }
        if collided {
            self.direction = -self.direction;
        }
    }

    /// Freeze the active block into the grid cell store, then step the game
    /// forward: level up, row up (wrapping at the top), a new block of the
    /// new level's size spawned on the new row, and the speed grown.
    pub fn place_block(&mut self)
        requires
            old(self).wf(),
        ensures
            final(self).wf(),
            exists|x0: int| place_shape(*old(self), *final(self), x0),
            old(self).active_squares@.len() == 0 ==> final(self).frozen_squares@ == old(
                self,
            ).frozen_squares@,
    {
        let n: usize = self.active_squares.len();
        let mut i: usize = 0;
        while i < n
            invariant
                0 <= i <= n,
                n == self.active_squares@.len(),
                self.active_squares@ == old(self).active_squares@,
                self.frozen_squares@ == insert_all(
                    old(self).frozen_squares@,
                    old(self).active_squares@.take(i as int),
                ),
                self.frozen_squares.wf(),
                self.speed == old(self).speed,
                self.direction == old(self).direction,
                self.level == old(self).level,
                self.current_y == old(self).current_y,
                old(self).wf(),
            decreases n - i,
        {
            let s = self.active_squares[i];
            proof {
                assert(active_wf(old(self).active_squares@, old(self).current_y as int));
                assert(is_unit_square(old(self).active_squares@[i as int]));
                let ghost pre_active = old(self).active_squares@;
                assert(pre_active.take(i as int + 1).drop_last() =~= pre_active.take(i as int));
                assert(pre_active.take(i as int + 1).last() == pre_active[i as int]);
            }
            self.frozen_squares.insert_square(s);
            i += 1;
        }
        proof {
            assert(old(self).active_squares@.take(n as int) =~= old(self).active_squares@);
        }
        self.active_squares.clear();
        if self.level < i64::MAX {
            self.level = self.level + 1;
        }
        self.current_y = self.current_y - GRID_SIZE;
        if self.current_y < 0 {
            self.current_y = HEIGHT * GRID_SIZE - GRID_SIZE;
        }
        let size: i64 = block_size(self.level);
        let ghost mid = *self;
        self.spawn_block(size);
        self.increase_speed();
        proof {
            let x0 = choose|x0: int|
                valid_offset(x0, size as int) && spawn_shape(
                    self.active_squares@,
                    x0,
                    size as int,
                    mid.current_y as int,
                );
            assert(place_shape(*old(self), *self, x0));
        }
    }

    /// Grow the speed by 35% (27/20 in fixed point), saturating at the cap.
    pub fn increase_speed(&mut self)
        requires
            old(self).wf(),
        ensures
            final(self).wf(),
            final(self).speed == next_speed(old(self).speed as int),
            final(self).active_squares@ == old(self).active_squares@,
            final(self).frozen_squares@ == old(self).frozen_squares@,
            final(self).direction == old(self).direction,
            final(self).level == old(self).level,
            final(self).current_y == old(self).current_y,
    {
        proof {
            lemma_div_is_ordered(self.speed * 20, self.speed * 27, 20);
            lemma_div_multiples_vanish(self.speed as int, 20);
        }
        let grown: i64 = self.speed * 27 / 20;
        if grown > SPEED_MAX {
            self.speed = SPEED_MAX;
        } else {
            self.speed = grown;
        }
    }

    /// One frame of simulation: spawn a block of the level's size if none
    /// is in play, advance it by the elapsed time, and bounce off the
    /// walls.
    pub fn update(&mut self, dt: i64)
        requires
            old(self).wf(),
            0 <= dt <= DT_MAX,
        ensures
            final(self).wf(),
            old(self).active_squares@.len() > 0 ==> ticked_moving(
                *old(self),
                *final(self),
                dt as int,
            ),
            old(self).active_squares@.len() == 0 ==> exists|x0: int|
                ticked_spawning(*old(self), *final(self), x0, dt as int),
    {
        if self.active_squares.is_empty() {
            let size: i64 = block_size(self.level);
            self.spawn_block(size);
        }
        let ghost mid = *self;
        self.move_block(dt);
        let ghost mid2 = *self;
        self.check_collision();
        proof {
            if old(self).active_squares@.len() == 0 {
                let bs = spec_block_size(old(self).level as int);
                let x0 = choose|x0: int|
                    valid_offset(x0, bs) && spawn_shape(
                        mid.active_squares@,
                        x0,
                        bs,
                        old(self).current_y as int,
                    );
                assert forall|i: int| 0 <= i < self.active_squares@.len() implies (#[trigger] self
                    .active_squares@[i]).x == moved_x(
                    x0 + i * GRID_SIZE,
                    old(self).speed as int,
                    old(self).direction as int,
                    dt as int,
                ) && self.active_squares@[i].y == old(self).current_y && is_unit_square(
                    self.active_squares@[i],
                ) by {
                    assert(mid.active_squares@[i].x == x0 + i * GRID_SIZE);
                    assert(self.active_squares@[i] == mid2.active_squares@[i]);
                    assert(mid2.active_squares@[i].x == moved_x(
                        mid.active_squares@[i].x as int,
                        mid.speed as int,
                        mid.direction as int,
                        dt as int,
                    ));
                }
                assert(ticked_spawning(*old(self), *self, x0, dt as int));
            } else {
                assert(ticked_moving(*old(self), *self, dt as int));
            }
        }
    }

    /// React to a key press: the place key freezes the block and steps the
    /// game forward; every other key is ignored.
    pub fn update_on_button_press(&mut self, key: Key)
        requires
            old(self).wf(),
        ensures
            final(self).wf(),
            key == Key::Space ==> exists|x0: int| place_shape(*old(self), *final(self), x0),
            key != Key::Space ==> same_state(*old(self), *final(self)),
    {
        match key {
            Key::Space => self.place_block(),
            Key::Other => {},
        }
    }
}

} // verus!
