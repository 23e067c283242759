//! The complete state of a chess game.

use vstd::prelude::*;

use crate::board::bitboard::bit;
use crate::board::piece::Piece;
use crate::board::player::Player;
use crate::board::square::Square;
use crate::rules::castle_rights::CastleRights;
use crate::rules::player_board::PlayerBoard;

verus! {

/// Represents a complete state of a chess game.
#[derive(PartialEq, Eq, Structural, Clone, Copy, Debug)]
pub struct GameState {
    /// The white player board.
    pub white_board: PlayerBoard,
    /// The black player board.
    pub black_board: PlayerBoard,
    /// The player whose turn it is.
    pub player_turn: Player,
    /// The square an en-passant capture is available on, if any.
    pub en_passant: Option<Square>,
    /// White player's castle rights.
    pub white_castle_rights: CastleRights,
    /// Black player's castle rights.
    pub black_castle_rights: CastleRights,
    /// The number of half-turns since the last capture or pawn advance.
    pub draw_plies: usize,
    /// The number of full turns elapsed.
    pub full_turns: usize,
}

/// The kind of piece of `board` on square `k`, if any, the kinds looked at in
/// the order pawn, rook, knight, bishop, queen, king.
pub open spec fn piece_on(board: PlayerBoard, k: int) -> Option<Piece> {
    if bit(board.pawns.0, k) {
        Some(Piece::Pawn)
    } else if bit(board.rooks.0, k) {
        Some(Piece::Rook)
    } else if bit(board.knights.0, k) {
        Some(Piece::Knight)
    } else if bit(board.bishops.0, k) {
        Some(Piece::Bishop)
    } else if bit(board.queens.0, k) {
        Some(Piece::Queen)
    } else if bit(board.king.0, k) {
        Some(Piece::King)
    } else {
        None
    }
}

impl GameState {
    /// The occupant of square `k`: a white piece if there is one, else a black one.
    pub open spec fn occupant_spec(self, k: int) -> Option<(Piece, Player)> {
        match piece_on(self.white_board, k) {
            Some(p) => Some((p, Player::White)),
            None => match piece_on(self.black_board, k) {
                Some(p) => Some((p, Player::Black)),
                None => None,
            },
        }
    }

    /// The board of the given player.
    pub open spec fn board_of(self, player: Player) -> PlayerBoard {
        match player {
            Player::White => self.white_board,
            Player::Black => self.black_board,
        }
    }

    /// The castle rights of the given player.
    pub open spec fn rights_of(self, player: Player) -> CastleRights {
        match player {
            Player::White => self.white_castle_rights,
            Player::Black => self.black_castle_rights,
        }
    }

    /// The state with the board of the given player replaced.
    pub open spec fn with_board_of(self, player: Player, board: PlayerBoard) -> GameState {
        match player {
            Player::White => GameState { white_board: board, ..self },
            Player::Black => GameState { black_board: board, ..self },
        }
    }

    /// The state with the castle rights of the given player replaced.
    pub open spec fn with_rights_of(self, player: Player, rights: CastleRights) -> GameState {
        match player {
            Player::White => GameState { white_castle_rights: rights, ..self },
            Player::Black => GameState { black_castle_rights: rights, ..self },
        }
    }

    /// The standard chess starting position.
    pub open spec fn start_spec() -> GameState {
        GameState {
            white_board: PlayerBoard::start_spec(Player::White),
            black_board: PlayerBoard::start_spec(Player::Black),
            player_turn: Player::White,
            en_passant: None,
            white_castle_rights: CastleRights::Both,
            black_castle_rights: CastleRights::Both,
            draw_plies: 0,
            full_turns: 0,
        }
    }

    /// Returns the standard chess starting position.
    pub fn start_position() -> (r: Self)
        ensures
            r == GameState::start_spec(),
    {
        GameState {
            white_board: PlayerBoard::start_position(Player::White),
            black_board: PlayerBoard::start_position(Player::Black),
            player_turn: Player::White,
            en_passant: None,
            white_castle_rights: CastleRights::Both,
            black_castle_rights: CastleRights::Both,
            draw_plies: 0,
            full_turns: 0,
        }
    }

    /// Returns the player board of the given player.
    pub fn player_board(&self, player: Player) -> (r: PlayerBoard)
        ensures
            r == self.board_of(player),
    {
        match player {
            Player::White => self.white_board,
            Player::Black => self.black_board,
        }
    }

    /// Returns the castle rights of the given player.
    pub fn castle_rights(&self, player: Player) -> (r: CastleRights)
        ensures
            r == self.rights_of(player),
    {
        match player {
            Player::White => self.white_castle_rights,
            Player::Black => self.black_castle_rights,
        }
    }

    /// Sets the castle rights for the given player.
    pub fn set_castle_rights(&mut self, player: Player, castle_rights: CastleRights)
        ensures
            *final(self) == old(self).with_rights_of(player, castle_rights),
    {
        match player {
            Player::White => self.white_castle_rights = castle_rights,
            Player::Black => self.black_castle_rights = castle_rights,
        };
    }

    /// Returns the piece on the given square and its owner, if any.
    pub fn occupant(&self, square: Square) -> (r: Option<(Piece, Player)>)
        ensures
            r == self.occupant_spec(square.index()),
    {
        let white = self.white_board;
        let black = self.black_board;
        let found_white = if white.pawns.is_square_set(square) {
            Some(Piece::Pawn)
        } else if white.rooks.is_square_set(square) {
            Some(Piece::Rook)
        } else if white.knights.is_square_set(square) {
            Some(Piece::Knight)
        } else if white.bishops.is_square_set(square) {
            Some(Piece::Bishop)
        } else if white.queens.is_square_set(square) {
            Some(Piece::Queen)
        } else if white.king.is_square_set(square) {
            Some(Piece::King)
        } else {
            None
        };
        match found_white {
            Some(p) => Some((p, Player::White)),
            None => {
                let found_black = if black.pawns.is_square_set(square) {
                    Some(Piece::Pawn)
                } else if black.rooks.is_square_set(square) {
                    Some(Piece::Rook)
                } else if black.knights.is_square_set(square) {
                    Some(Piece::Knight)
                } else if black.bishops.is_square_set(square) {
                    Some(Piece::Bishop)
                } else if black.queens.is_square_set(square) {
                    Some(Piece::Queen)
                } else if black.king.is_square_set(square) {
                    Some(Piece::King)
                } else {
                    None
                };
                match found_black {
                    Some(p) => Some((p, Player::Black)),
                    None => None,
                }
            },
        }
    }

    /// Returns a copy with the given white board.
    pub fn with_white_board(self, white_board: PlayerBoard) -> (r: Self)
        ensures
            r == (GameState { white_board, ..self }),
    {
        GameState { white_board, ..self }
    }

    /// Returns a copy with the given black board.
    pub fn with_black_board(self, black_board: PlayerBoard) -> (r: Self)
        ensures
            r == (GameState { black_board, ..self }),
    {
        GameState { black_board, ..self }
    }

    /// Returns a copy with the given player to move.
    pub fn with_player_turn(self, player_turn: Player) -> (r: Self)
        ensures
            r == (GameState { player_turn, ..self }),
    {
        GameState { player_turn, ..self }
    }

    /// Returns a copy with the given en-passant square.
    pub fn with_en_passant(self, en_passant: Option<Square>) -> (r: Self)
        ensures
            r == (GameState { en_passant, ..self }),
    {
        GameState { en_passant, ..self }
    }

    /// Returns a copy with the given white castle rights.
    pub fn with_white_castle_rights(self, white_castle_rights: CastleRights) -> (r: Self)
        ensures
            r == (GameState { white_castle_rights, ..self }),
    {
        GameState { white_castle_rights, ..self }
    }

    /// Returns a copy with the given black castle rights.
    pub fn with_black_castle_rights(self, black_castle_rights: CastleRights) -> (r: Self)
        ensures
            r == (GameState { black_castle_rights, ..self }),
    {
        GameState { black_castle_rights, ..self }
    }

    /// Returns a copy with the given count of half-turns since a capture or pawn advance.
    pub fn with_draw_plies(self, draw_plies: usize) -> (r: Self)
        ensures
            r == (GameState { draw_plies, ..self }),
    {
        GameState { draw_plies, ..self }
    }

    /// Returns a copy with the given count of full turns.
    pub fn with_full_turns(self, full_turns: usize) -> (r: Self)
        ensures
            r == (GameState { full_turns, ..self }),
    {
        GameState { full_turns, ..self }
    }
}

impl Default for GameState {
    /// An empty board, White to move, with no castle rights and no en-passant square.
    fn default() -> (r: Self)
        ensures
            r.white_board.all_bits() == 0,
            r.black_board.all_bits() == 0,
            r.player_turn == Player::White,
            r.en_passant is None,
            r.white_castle_rights == CastleRights::Neither,
            r.black_castle_rights == CastleRights::Neither,
            r.draw_plies == 0,
            r.full_turns == 0,
    {
        GameState {
            white_board: PlayerBoard::default(),
            black_board: PlayerBoard::default(),
            player_turn: Player::White,
            en_passant: None,
            white_castle_rights: CastleRights::Neither,
            black_castle_rights: CastleRights::Neither,
            draw_plies: 0,
            full_turns: 0,
        }
    }
}

} // verus!
