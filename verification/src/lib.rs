//! Rules engine for a falling-block puzzle game: piece geometry, the playing
//! field, the randomized piece bag, and the state machine that moves, drops
//! and locks the falling piece.

pub mod engine;
pub mod piece;
