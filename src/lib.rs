//! Core rules of a falling-block puzzle game: the board of settled cells, the
//! catalog of tetrominoes, collision tests, movement, line clears and scoring.

pub mod board;
pub mod collision;
pub mod components;
pub mod constants;
pub mod game;
pub mod resources;
pub mod systems;
