//! Checking a move against the state it is to be applied to.

use vstd::prelude::*;

use crate::board::bitboard::{bit, single, BitBoard};
use crate::board::piece::Piece;
use crate::board::player::Player;
use crate::board::square::Square;
use crate::rules::game_state::GameState;
use crate::rules::move_application::{back_rank_start, CastleMove, Move};
use crate::rules::semilegal_moves::{attacks_spec, moves_spec};

verus! {

/// Why a move does not fit the state it is to be applied to.
#[derive(PartialEq, Eq, Structural, Clone, Copy, Debug)]
pub enum MoveError {
    /// The moved piece is not on the origin square.
    PieceNotInPlace,
    /// A capture's target holds no opponent piece.
    NothingToCapture,
    /// A non-capturing move's target is occupied.
    TargetOccupied,
    /// The move promotes to a pawn.
    PromotionToPawn,
    /// The promotion does not go from the seventh rank to the eighth (for Black,
    /// from the second to the first).
    PromotionSquares,
    /// The mover has no right to castle to that side.
    NoCastleRights,
    /// A square between king and rook is occupied.
    CastleBlocked,
    /// An en-passant capture does not land on the en-passant square, or there is none.
    NoEnPassant,
    /// A pawn move to the first or eighth rank is not a promotion.
    PromotionMissing,
    /// The piece cannot capture on the target square.
    InvalidCapture,
    /// The piece cannot move to the target square.
    InvalidMove,
}

/// The squares between king and rook that must be empty for a castle.
pub open spec fn castle_path(player: Player, side: CastleMove) -> u64 {
    let base = back_rank_start(player);
    match side {
        CastleMove::KingSide => single(base + 5) | single(base + 6),
        CastleMove::QueenSide => single(base + 1) | single(base + 2) | single(base + 3),
    }
}

/// The first check that `mv` fails in `s`, in the order: origin, target,
/// promotion, castle, en passant, promotion on the last rank, and the
/// movement rule of the piece.
pub open spec fn validate_spec(s: GameState, mv: Move) -> Result<(), MoveError> {
    let p = s.player_turn;
    let own = s.board_of(p);
    let opp = s.board_of(p.opponent());
    let all = own.all_bits() | opp.all_bits();
    let from = mv.origin.index();
    let to = mv.target.index();
    if !bit(own.bits(mv.piece), from) {
        Err(MoveError::PieceNotInPlace)
    } else if mv.capture && !mv.en_passant && !bit(opp.all_bits(), to) {
        Err(MoveError::NothingToCapture)
    } else if !(mv.capture && !mv.en_passant) && bit(all, to) {
        Err(MoveError::TargetOccupied)
    } else if mv.promotion == Some(Piece::Pawn) {
        Err(MoveError::PromotionToPawn)
    } else if mv.promotion is Some && (match p {
        Player::White => from / 8 != 6 || to / 8 != 7,
        Player::Black => from / 8 != 1 || to / 8 != 0,
    }) {
        Err(MoveError::PromotionSquares)
    } else if mv.castle is Some && !(match mv.castle->Some_0 {
        CastleMove::KingSide => s.rights_of(p).has_king_side(),
        CastleMove::QueenSide => s.rights_of(p).has_queen_side(),
    }) {
        Err(MoveError::NoCastleRights)
    } else if mv.castle is Some && all & castle_path(p, mv.castle->Some_0) != 0 {
        Err(MoveError::CastleBlocked)
    } else if mv.en_passant && s.en_passant != Some(mv.target) {
        Err(MoveError::NoEnPassant)
    } else if mv.piece == Piece::Pawn && (to / 8 == 7 || to / 8 == 0) && mv.promotion is None {
        Err(MoveError::PromotionMissing)
    } else if mv.capture {
        let targets = if mv.piece == Piece::Pawn && s.en_passant is Some {
            opp.all_bits() | single(s.en_passant->Some_0.index())
        } else {
            opp.all_bits()
        };
        if bit(attacks_spec(mv.piece, from, p, own.all_bits(), targets), to) {
            Ok(())
        } else {
            Err(MoveError::InvalidCapture)
        }
    } else if mv.castle is None && !bit(moves_spec(mv.piece, from, p, all), to) {
        Err(MoveError::InvalidMove)
    } else {
        Ok(())
    }
}

impl GameState {
    /// Checks that the move fits the state: the piece is in place, the target
    /// is free (or, for a capture, holds an opponent piece), a promotion goes
    /// from the seventh rank to the eighth, a castle has its rights and a clear
    /// path, an en-passant capture lands on the en-passant square, a pawn on
    /// the last rank promotes, and the piece's movement rule allows the move.
    pub fn validate(&self, mv: &Move) -> (r: Result<(), MoveError>)
        ensures
            r == validate_spec(*self, *mv),
    {
        let player = self.player_turn;
        let own = self.player_board(player);
        let opponent = self.player_board(player.other());
        let own_pieces = own.all();
        let opponent_pieces = opponent.all();
        let all = BitBoard(own_pieces.0 | opponent_pieces.0);
        let from = mv.origin.to_index();
        let to = mv.target.to_index();
        if !own.piece(mv.piece).is_square_set(mv.origin) {
            return Err(MoveError::PieceNotInPlace);
        }
        if mv.capture && !mv.en_passant {
            if !opponent_pieces.is_square_set(mv.target) {
                return Err(MoveError::NothingToCapture);
            }
        } else if all.is_square_set(mv.target) {
            return Err(MoveError::TargetOccupied);
        }
        if let Some(promoted) = mv.promotion {
            if promoted == Piece::Pawn {
                return Err(MoveError::PromotionToPawn);
            }
            let wrong_ranks = match player {
                Player::White => from / 8 != 6 || to / 8 != 7,
                Player::Black => from / 8 != 1 || to / 8 != 0,
            };
            if wrong_ranks {
                return Err(MoveError::PromotionSquares);
            }
        }
        if let Some(side) = mv.castle {
            let rights = self.castle_rights(player);
            let allowed = match side {
                CastleMove::KingSide => rights.is_king_side_available(),
                CastleMove::QueenSide => rights.is_queen_side_available(),
            };
            if !allowed {
                return Err(MoveError::NoCastleRights);
            }
            let base: u8 = match player {
                Player::White => 0,
                Player::Black => 56,
            };
            let path = match side {
                CastleMove::KingSide => Square::new(base + 5).to_bitboard().0 | Square::new(
                    base + 6,
                ).to_bitboard().0,
                CastleMove::QueenSide => Square::new(base + 1).to_bitboard().0 | Square::new(
                    base + 2,
                ).to_bitboard().0 | Square::new(base + 3).to_bitboard().0,
            };
            if all.0 & path != 0 {
                return Err(MoveError::CastleBlocked);
            }
        }
        if mv.en_passant {
            match self.en_passant {
                Some(target) => if target != mv.target {
                    return Err(MoveError::NoEnPassant);
                },
                None => return Err(MoveError::NoEnPassant),
            }
        }
        if mv.piece == Piece::Pawn && (to / 8 == 7 || to / 8 == 0) && mv.promotion.is_none() {
            return Err(MoveError::PromotionMissing);
        }
        if mv.capture {
            let mut targets = opponent_pieces;
            if mv.piece == Piece::Pawn {
                if let Some(en_passant) = self.en_passant {
                    // a pawn may capture onto the en-passant square
                    targets = targets.set_square(en_passant);
                }
            }
            if !mv.piece.attacks(mv.origin, player, own_pieces, targets).is_square_set(mv.target) {
                return Err(MoveError::InvalidCapture);
            }
        } else if mv.castle.is_none() {
            if !mv.piece.moves(mv.origin, player, all).is_square_set(mv.target) {
                return Err(MoveError::InvalidMove);
            }
        }
        Ok(())
    }
}

} // verus!
