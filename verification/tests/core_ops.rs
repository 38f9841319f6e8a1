use stacker_game::config::{block_size, DT_MAX, GRID_SIZE, HEIGHT, SPEED_MAX, START_SPEED, WIDTH};
use stacker_game::frozen::FrozenGrid;
use stacker_game::game::{Game, Key};
use stacker_game::square::Square;

fn game_with_block(xs: &[i64], y: i64, direction: i64, speed: i64, level: i64) -> Game {
    let mut active = Vec::new();
    for &x in xs {
        active.push(Square { x, y, w: GRID_SIZE, h: GRID_SIZE });
    }
    Game {
        active_squares: active,
        frozen_squares: FrozenGrid::new(),
        speed,
        direction,
        level,
        current_y: y,
    }
}

#[test]
fn block_size_bands() {
    assert_eq!(block_size(1), 3);
    assert_eq!(block_size(2), 3);
    assert_eq!(block_size(3), 3);
    assert_eq!(block_size(4), 2);
    assert_eq!(block_size(5), 2);
    assert_eq!(block_size(6), 2);
    assert_eq!(block_size(7), 1);
    assert_eq!(block_size(8), 1);
    assert_eq!(block_size(100), 1);
}

#[test]
fn new_game_initial_state() {
    let g = Game::new();
    assert!(g.active_squares.is_empty());
    assert_eq!(g.frozen_squares.entries.len(), 0);
    assert_eq!(g.speed, START_SPEED);
    assert_eq!(g.direction, 1);
    assert_eq!(g.level, 1);
    assert_eq!(g.current_y, HEIGHT * GRID_SIZE - GRID_SIZE);
    assert_eq!(g.current_y, 560_000);
}

#[test]
fn first_update_spawns_three_in_bounds() {
    for _ in 0..50 {
        let mut g = Game::new();
        g.update(0);
        assert_eq!(g.active_squares.len(), 3);
        for (i, sq) in g.active_squares.iter().enumerate() {
            assert_eq!(sq.w, GRID_SIZE);
            assert_eq!(sq.h, GRID_SIZE);
            assert_eq!(sq.y, 560_000);
            assert!(sq.x >= 0);
            assert!(sq.x + GRID_SIZE < WIDTH * GRID_SIZE);
            if i > 0 {
                assert_eq!(sq.x, g.active_squares[i - 1].x + GRID_SIZE);
            }
        }
    }
}

#[test]
fn move_block_advances_exactly() {
    let mut g = game_with_block(&[100_000], 560_000, 1, 1500, 1);
    g.move_block(100);
    assert_eq!(g.active_squares[0].x, 106_000);
    g.direction = -1;
    g.move_block(100);
    assert_eq!(g.active_squares[0].x, 100_000);
}

#[test]
fn move_block_zero_dt_is_noop() {
    let mut g = game_with_block(&[123_456], 560_000, 1, 1500, 1);
    g.move_block(0);
    assert_eq!(g.active_squares[0].x, 123_456);
}

#[test]
fn move_block_largest_tick() {
    let mut g = game_with_block(&[0], 560_000, 1, 1500, 1);
    g.move_block(DT_MAX);
    // 1.5 speed * 100 s * one cell per unit speed-second = 150 cells.
    assert_eq!(g.active_squares[0].x, 150 * GRID_SIZE);
}

#[test]
fn collision_flips_at_left_wall() {
    let mut g = game_with_block(&[0, 40_000, 80_000], 560_000, 1, 1500, 1);
    g.check_collision();
    assert_eq!(g.direction, -1);
}

#[test]
fn collision_flips_at_right_wall() {
    // Right edge of the last square reaches WIDTH * GRID_SIZE exactly.
    let mut g = game_with_block(&[160_000, 200_000, 240_000], 560_000, -1, 1500, 1);
    g.check_collision();
    assert_eq!(g.direction, 1);
}

#[test]
fn collision_keeps_direction_inside() {
    let mut g = game_with_block(&[1_000, 41_000, 81_000], 560_000, 1, 1500, 1);
    g.check_collision();
    assert_eq!(g.direction, 1);
    g.direction = -1;
    g.check_collision();
    assert_eq!(g.direction, -1);
}

#[test]
fn collision_reflips_every_check_while_out() {
    let mut g = game_with_block(&[-5_000], 560_000, 1, 1500, 1);
    g.check_collision();
    assert_eq!(g.direction, -1);
    // No movement in between: the check fires again and restores the sign.
    g.check_collision();
    assert_eq!(g.direction, 1);
}

#[test]
fn other_keys_are_ignored() {
    let mut g = game_with_block(&[100_000], 560_000, 1, 1500, 1);
    g.update_on_button_press(Key::Other);
    assert_eq!(g.active_squares.len(), 1);
    assert_eq!(g.active_squares[0].x, 100_000);
    assert_eq!(g.level, 1);
    assert_eq!(g.speed, 1500);
    assert_eq!(g.frozen_squares.entries.len(), 0);
}

#[test]
fn place_freezes_levels_and_respawns() {
    let mut g = game_with_block(&[1_000, 41_000, 81_000], 560_000, 1, 1500, 1);
    g.update_on_button_press(Key::Space);
    assert_eq!(g.frozen_squares.len(), 3);
    let keys: Vec<(i64, i64)> = g.frozen_squares.entries.iter().map(|e| (e.col, e.row)).collect();
    assert_eq!(keys, vec![(0, 14), (1, 14), (2, 14)]);
    assert_eq!(g.frozen_squares.entries[0].square.x, 1_000);
    assert_eq!(g.level, 2);
    assert_eq!(g.current_y, 520_000);
    assert_eq!(g.speed, 2025);
    assert_eq!(g.active_squares.len(), 3);
    for sq in &g.active_squares {
        assert_eq!(sq.y, 520_000);
    }
}

#[test]
fn place_with_empty_block_grows_nothing() {
    let mut g = Game::new();
    g.update_on_button_press(Key::Space);
    assert_eq!(g.frozen_squares.entries.len(), 0);
    // The rest of the placement still happens.
    assert_eq!(g.level, 2);
    assert_eq!(g.speed, 2025);
    assert_eq!(g.active_squares.len(), 3);
}

#[test]
fn place_same_cell_twice_overwrites() {
    let mut g = game_with_block(&[81_000], 0, 1, 1500, 1);
    g.update_on_button_press(Key::Space);
    assert_eq!(g.frozen_squares.entries.len(), 1);
    // A second square frozen over the same cell replaces the first entry.
    g.active_squares.clear();
    g.active_squares.push(Square { x: 82_000, y: 0, w: GRID_SIZE, h: GRID_SIZE });
    g.update_on_button_press(Key::Space);
    assert_eq!(g.frozen_squares.entries.len(), 1);
    assert_eq!(g.frozen_squares.entries[0].col, 2);
    assert_eq!(g.frozen_squares.entries[0].row, 0);
    assert_eq!(g.frozen_squares.entries[0].square.x, 82_000);
}

#[test]
fn cell_keys_truncate_toward_zero() {
    // A square clipping slightly past the left wall keys at column 0:
    // the cell index truncates toward zero.
    let mut g = game_with_block(&[-5_000], 560_000, 1, 1500, 1);
    g.update_on_button_press(Key::Space);
    assert_eq!(g.frozen_squares.entries[0].col, 0);
    assert_eq!(g.frozen_squares.entries[0].row, 14);

    let mut g2 = game_with_block(&[39_999], 560_000, 1, 1500, 1);
    g2.update_on_button_press(Key::Space);
    assert_eq!(g2.frozen_squares.entries[0].col, 0);

    let mut g3 = game_with_block(&[40_000], 560_000, 1, 1500, 1);
    g3.update_on_button_press(Key::Space);
    assert_eq!(g3.frozen_squares.entries[0].col, 1);
}

#[test]
fn speed_growth_matches_fixed_point_factor() {
    let mut g = Game::new();
    let mut expected: i64 = START_SPEED;
    for _ in 0..50 {
        let before = g.speed;
        g.update_on_button_press(Key::Space);
        expected = if expected * 27 / 20 > SPEED_MAX { SPEED_MAX } else { expected * 27 / 20 };
        assert_eq!(g.speed, expected);
        assert!(g.speed >= before);
        assert!(g.speed <= SPEED_MAX);
    }
}
