//! The rules of chess: move generation, check detection and move application.

pub mod basic_moves;
pub mod castle_rights;
pub mod check_detection;
pub mod fen_parser;
pub mod game_state;
pub mod legal_moves;
pub mod move_application;
pub mod move_validation;
pub mod player_board;
pub mod ray_geometry;
pub mod semilegal_moves;
