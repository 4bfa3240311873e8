//! Simulation core of a falling-block puzzle game: tiles, pieces, collision,
//! rotation, line clearing, the piece queue, the timers that gate movement,
//! and the tick that runs them in order.
pub mod board;
pub mod dev_tools;
pub mod game;
pub mod invariants;
pub mod keymap;
pub mod menu;
pub mod score;
pub mod state;
pub mod tetromino;
pub mod timers;
