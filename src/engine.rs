//! The evaluation of positions for a search.

pub mod heuristic;
