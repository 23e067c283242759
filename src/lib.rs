//! A chess rules engine on 64-bit bitboards.
//!
//! The `board` module holds the value types of a position (bitboards,
//! squares, files, ranks, pieces, players); the `rules` module holds move
//! generation, check detection, move application and FEN import; the
//! `engine` module scores positions.

pub mod board;
pub mod engine;
pub mod rules;
