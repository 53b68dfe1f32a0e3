//! A time-boxed survival mini-game: the player walks a 2D field, opens
//! randomly scattered boxes that heal or hurt, and wins by opening three of
//! them with health left before a minute is up.
//!
//! - `geometry`: points, box overlap, proximity and the field of view.
//! - `effect`: what opening a box does to the player's health.
//! - `random`: the random source the game draws from.
//! - `placer`: placement of non-overlapping boxes and their effects.
//! - `state`: the game state and the moves and box openings that change it.
//! - `session`: the win/lose state machine that drives a session tick by tick.
pub mod effect;
pub mod geometry;
pub mod placer;
pub mod random;
pub mod session;
pub mod state;

pub use effect::BoxEffect;
pub use geometry::{player_near_box, Point};
pub use session::{GameWindow, MainState, Outcome};
pub use state::{handle_input, Actions, GameBox, GameState};
