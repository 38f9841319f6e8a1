use stacker_game::config::{GRID_SIZE, HEIGHT, WIDTH};
use stacker_game::frozen::FrozenGrid;
use stacker_game::game::{Game, Key};
use stacker_game::square::Square;

#[test]
fn end_to_end_first_placement() {
    // Grid 7 by 15 with 40-pixel cells; level 1 spawns a size-3 block on
    // the bottom row (560 pixels).
    assert_eq!(WIDTH, 7);
    assert_eq!(HEIGHT, 15);
    let mut g = Game::new();
    assert_eq!(g.current_y, 560_000);
    g.update(16);
    assert_eq!(g.active_squares.len(), 3);

    // Drive the block left until it reaches the wall: the check flips the
    // direction from 1 to -1 once a square's x falls to or below zero.
    g.direction = -1;
    let mut flipped = false;
    for _ in 0..10_000 {
        g.update(16);
        if g.direction == 1 {
            flipped = true;
            break;
        }
    }
    assert!(flipped);
    assert!(g.active_squares[0].x <= 0);

    // Pressing place at that moment freezes the block on row 14 (one
    // entry per distinct truncated cell key, as extending a map keyed by
    // `(x / GRID_SIZE, y / GRID_SIZE)` behaves), raises the level, lifts
    // the row and grows the speed by 35%.
    let mut expected_keys: Vec<(i64, i64)> = g
        .active_squares
        .iter()
        .map(|sq| (sq.x / GRID_SIZE, sq.y / GRID_SIZE))
        .collect();
    expected_keys.dedup();
    let speed_before = g.speed;
    g.update_on_button_press(Key::Space);
    assert_eq!(g.frozen_squares.entries.len(), expected_keys.len());
    for e in &g.frozen_squares.entries {
        assert_eq!(e.row, 14);
        assert_eq!(e.square.y / GRID_SIZE, 14);
        assert!(expected_keys.contains(&(e.col, e.row)));
    }
    assert_eq!(g.level, 2);
    assert_eq!(g.current_y, 520_000);
    assert_eq!(g.speed, speed_before * 27 / 20);
    assert_eq!(g.active_squares.len(), 3);
}

#[test]
fn sample_speed_growth_is_exact() {
    // 1.5 grows to exactly 2.025 on the first placement.
    let mut g = Game::new();
    assert_eq!(g.speed, 1500);
    g.update_on_button_press(Key::Space);
    assert_eq!(g.speed, 2025);
}

#[test]
fn level_seven_spawns_single_squares() {
    let mut g = Game::new();
    for _ in 0..5 {
        g.update_on_button_press(Key::Space);
    }
    assert_eq!(g.level, 6);
    assert_eq!(g.active_squares.len(), 2);
    // One more placement reaches level 7; from there on, spawns are single
    // squares.
    g.update_on_button_press(Key::Space);
    assert_eq!(g.level, 7);
    assert_eq!(g.active_squares.len(), 1);
    for _ in 0..3 {
        g.update_on_button_press(Key::Space);
        assert_eq!(g.active_squares.len(), 1);
    }
}

#[test]
fn block_sizes_shrink_with_levels() {
    let mut g = Game::new();
    g.update(0);
    assert_eq!(g.active_squares.len(), 3);
    for _ in 0..3 {
        g.update_on_button_press(Key::Space);
    }
    assert_eq!(g.level, 4);
    assert_eq!(g.active_squares.len(), 2);
}

#[test]
fn row_wraps_to_bottom_below_zero() {
    let mut g = Game::new();
    // Fifteen rows: fourteen placements climb from y = 560000 to y = 0.
    for step in 1..=14 {
        g.update_on_button_press(Key::Space);
        assert_eq!(g.current_y, 560_000 - 40_000 * step);
    }
    assert_eq!(g.current_y, 0);
    // The next placement would go below zero and resets to the bottom row.
    g.update_on_button_press(Key::Space);
    assert_eq!(g.current_y, HEIGHT * GRID_SIZE - GRID_SIZE);
    assert_eq!(g.current_y, 560_000);
}

#[test]
fn wrap_from_explicit_zero_row() {
    let mut g = Game {
        active_squares: vec![Square { x: 100_000, y: 0, w: GRID_SIZE, h: GRID_SIZE }],
        frozen_squares: FrozenGrid::new(),
        speed: 1500,
        direction: 1,
        level: 8,
        current_y: 0,
    };
    g.update_on_button_press(Key::Space);
    assert_eq!(g.current_y, 560_000);
    assert_eq!(g.active_squares[0].y, 560_000);
}

#[test]
fn bounce_keeps_block_near_grid() {
    // Many frames with a plausible frame time: the block keeps bouncing
    // between the walls and never escapes the playfield by more than one
    // frame's travel.
    let mut g = Game::new();
    let step: i64 = g.speed * 16 * GRID_SIZE / 1_000_000;
    for _ in 0..5_000 {
        g.update(16);
        for sq in &g.active_squares {
            assert!(sq.x > -step - 1);
            assert!(sq.x + GRID_SIZE < WIDTH * GRID_SIZE + step + 1);
        }
    }
}
