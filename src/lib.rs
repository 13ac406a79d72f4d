//! Core engine of a falling-block puzzle: geometry, piece shapes, the
//! playfield and the game state machine, with their contracts.

pub mod coord;
pub mod block;
pub mod piece;
pub mod tetromino;
pub mod field;
pub mod elapsed;
pub mod play;
