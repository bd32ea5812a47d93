//! A verified rules engine for standard chess.
//!
//! The engine holds the state of one game — the grid of pieces, the side to
//! move, the en-passant target, the half-move clock and the table of position
//! fingerprints — and decides for any proposed move whether it is legal,
//! applies legal moves, and classifies the resulting game status (check,
//! checkmate, stalemate, draw by repetition, draw by the fifty-move rule).

pub mod board;
pub mod geometry;
pub mod grid;
pub mod laws;
pub mod piece;
pub mod point;
pub mod rules;
pub mod status;
