//! A falling-blocks arcade game: a marker slides along the bottom of a board
//! and dodges blocks that appear in the top row and drop one row per tick.
//!
//! - [`model`] describes the game as mathematics: the board state, a tick,
//!   a player command.
//! - [`game`] holds the executable state, proved to follow the model.
//! - [`chance`] draws the spawn trials of a tick with the `rand` crate.
//! - [`session`] decides what key presses and clock ticks do and when the
//!   game is over.
//! - [`render`] says what each square of the board shows.
//! - [`theorems`] proves what holds of every game.

pub mod chance;
pub mod game;
pub mod model;
pub mod render;
pub mod session;
pub mod theorems;
