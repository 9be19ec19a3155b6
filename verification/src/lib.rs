//! Rules of a two-player disc match on a fixed time step.
//!
//! The crate keeps the part of a match that is decided, not measured: which
//! side holds the disc, who held it last, the score, the phase of the round,
//! what an agent's choice does to all of these and what it asks of the court.
//! Coordinates and clocks belong to the caller, which moves the bodies and
//! reports back what it saw (an overlap, a wall, a goal line) as plain values.
//!
//! A tick goes through `GameEngine` in a fixed order: `begin_step`, then for
//! the left side and after it for the right side `act` and `settle`, then
//! `disc_motion`, then `finish_step`. `GameEngine::step` does the same in one
//! call for a tick whose measurements are already known.

pub mod agent;
pub mod collision;
pub mod direction;
pub mod frisbee;
pub mod game_engine;
pub mod player;
pub mod progress;
pub mod qlearning;
mod random;
pub mod search;
pub mod shared_data;
