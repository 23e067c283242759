//! Types for the representation of a chess position.

pub mod bitboard;
pub mod file;
pub mod piece;
pub mod player;
pub mod rank;
pub mod square;
