//! Core of a falling/sliding block stacking game: a block of unit squares
//! slides horizontally across a fixed grid, bounces off the walls, and is
//! frozen in place on demand, after which a smaller and faster block spawns.
//!
//! All coordinates, speeds and time steps are held in fixed point: one pixel
//! is `config::SCALE` coordinate units, so fractional motion needs no
//! floating point and every state transition can be verified exactly.
//!
//! Policy choices, stated once: a new block spawns at a horizontal offset
//! drawn uniformly at random from the positions that keep it on the grid;
//! the speed grows by 35% on every placement; and a placement always
//! freezes whatever block is in play, even an empty one (the level, row
//! and speed still advance).

pub mod config;
pub mod frozen;
pub mod game;
pub mod laws;
mod rng;
pub mod square;
