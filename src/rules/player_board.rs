//! The positions of the pieces of one player.

use vstd::prelude::*;

use crate::board::bitboard::{
    BitBoard, BLACK_START_BISHOPS, BLACK_START_KINGS, BLACK_START_KNIGHTS, BLACK_START_PAWNS,
    BLACK_START_QUEENS, BLACK_START_ROOKS, WHITE_START_BISHOPS, WHITE_START_KINGS,
    WHITE_START_KNIGHTS, WHITE_START_PAWNS, WHITE_START_QUEENS, WHITE_START_ROOKS,
};
use crate::board::piece::Piece;
use crate::board::player::Player;

verus! {

/// The positions of the pieces of one player, one bitboard per kind of piece.
#[derive(PartialEq, Eq, Structural, Clone, Copy, Debug)]
pub struct PlayerBoard {
    /// The pawns.
    pub pawns: BitBoard,
    /// The rooks.
    pub rooks: BitBoard,
    /// The knights.
    pub knights: BitBoard,
    /// The bishops.
    pub bishops: BitBoard,
    /// The queens.
    pub queens: BitBoard,
    /// The king.
    pub king: BitBoard,
}

impl PlayerBoard {
    /// The squares of the given kind of piece.
    pub open spec fn bits(self, piece: Piece) -> u64 {
        match piece {
            Piece::Pawn => self.pawns.0,
            Piece::Rook => self.rooks.0,
            Piece::Knight => self.knights.0,
            Piece::Bishop => self.bishops.0,
            Piece::Queen => self.queens.0,
            Piece::King => self.king.0,
        }
    }

    /// The squares of all the pieces.
    pub open spec fn all_bits(self) -> u64 {
        self.pawns.0 | self.knights.0 | self.rooks.0 | self.bishops.0 | self.queens.0 | self.king.0
    }

    /// The board with the squares of the given kind of piece replaced.
    pub open spec fn replace(self, piece: Piece, bits: u64) -> PlayerBoard {
        match piece {
            Piece::Pawn => PlayerBoard { pawns: BitBoard(bits), ..self },
            Piece::Rook => PlayerBoard { rooks: BitBoard(bits), ..self },
            Piece::Knight => PlayerBoard { knights: BitBoard(bits), ..self },
            Piece::Bishop => PlayerBoard { bishops: BitBoard(bits), ..self },
            Piece::Queen => PlayerBoard { queens: BitBoard(bits), ..self },
            Piece::King => PlayerBoard { king: BitBoard(bits), ..self },
        }
    }

    /// The six piece sets are pairwise disjoint.
    pub open spec fn disjoint(self) -> bool {
        forall|p: Piece, q: Piece| p != q ==> #[trigger] self.bits(p) & #[trigger] self.bits(q) == 0
    }

    /// The start position of the given player.
    pub open spec fn start_spec(player: Player) -> PlayerBoard {
        match player {
            Player::White => PlayerBoard {
                pawns: BitBoard(WHITE_START_PAWNS),
                rooks: BitBoard(WHITE_START_ROOKS),
                knights: BitBoard(WHITE_START_KNIGHTS),
                bishops: BitBoard(WHITE_START_BISHOPS),
                queens: BitBoard(WHITE_START_QUEENS),
                king: BitBoard(WHITE_START_KINGS),
            },
            Player::Black => PlayerBoard {
                pawns: BitBoard(BLACK_START_PAWNS),
                rooks: BitBoard(BLACK_START_ROOKS),
                knights: BitBoard(BLACK_START_KNIGHTS),
                bishops: BitBoard(BLACK_START_BISHOPS),
                queens: BitBoard(BLACK_START_QUEENS),
                king: BitBoard(BLACK_START_KINGS),
            },
        }
    }

    /// Returns a copy of the instance with the given pawns.
    pub fn with_pawns(self, pawns: BitBoard) -> (r: Self)
        ensures
            r == (PlayerBoard { pawns, ..self }),
    {
        PlayerBoard { pawns, ..self }
    }

    /// Returns a copy of the instance with the given rooks.
    pub fn with_rooks(self, rooks: BitBoard) -> (r: Self)
        ensures
            r == (PlayerBoard { rooks, ..self }),
    {
        PlayerBoard { rooks, ..self }
    }

    /// Returns a copy of the instance with the given knights.
    pub fn with_knights(self, knights: BitBoard) -> (r: Self)
        ensures
            r == (PlayerBoard { knights, ..self }),
    {
        PlayerBoard { knights, ..self }
    }

    /// Returns a copy of the instance with the given bishops.
    pub fn with_bishops(self, bishops: BitBoard) -> (r: Self)
        ensures
            r == (PlayerBoard { bishops, ..self }),
    {
        PlayerBoard { bishops, ..self }
    }

    /// Returns a copy of the instance with the given queens.
    pub fn with_queens(self, queens: BitBoard) -> (r: Self)
        ensures
            r == (PlayerBoard { queens, ..self }),
    {
        PlayerBoard { queens, ..self }
    }

    /// Returns a copy of the instance with the given king position.
    pub fn with_king(self, king: BitBoard) -> (r: Self)
        ensures
            r == (PlayerBoard { king, ..self }),
    {
        PlayerBoard { king, ..self }
    }

    /// Returns a copy of the instance with the given piece set.
    pub fn with_piece(self, piece: Piece, bitboard: BitBoard) -> (r: Self)
        ensures
            r == self.replace(piece, bitboard.0),
    {
        match piece {
            Piece::Pawn => self.with_pawns(bitboard),
            Piece::Rook => self.with_rooks(bitboard),
            Piece::Knight => self.with_knights(bitboard),
            Piece::Bishop => self.with_bishops(bitboard),
            Piece::Queen => self.with_queens(bitboard),
            Piece::King => self.with_king(bitboard),
        }
    }

    /// Returns the positions of the given piece on the board.
    pub fn piece(&self, piece: Piece) -> (r: BitBoard)
        ensures
            r.0 == self.bits(piece),
    {
        match piece {
            Piece::Pawn => self.pawns,
            Piece::Rook => self.rooks,
            Piece::Knight => self.knights,
            Piece::Bishop => self.bishops,
            Piece::Queen => self.queens,
            Piece::King => self.king,
        }
    }

    /// Returns the combined squares of all the player's pieces.
    pub fn all(&self) -> (r: BitBoard)
        ensures
            r.0 == self.all_bits(),
    {
        BitBoard(
            self.pawns.0 | self.knights.0 | self.rooks.0 | self.bishops.0 | self.queens.0
                | self.king.0,
        )
    }

    /// Returns the start position for the given player.
    pub fn start_position(player: Player) -> (r: Self)
        ensures
            r == PlayerBoard::start_spec(player),
    {
        match player {
            Player::White => PlayerBoard {
                pawns: BitBoard(WHITE_START_PAWNS),
                rooks: BitBoard(WHITE_START_ROOKS),
                knights: BitBoard(WHITE_START_KNIGHTS),
                bishops: BitBoard(WHITE_START_BISHOPS),
                queens: BitBoard(WHITE_START_QUEENS),
                king: BitBoard(WHITE_START_KINGS),
            },
            Player::Black => PlayerBoard {
                pawns: BitBoard(BLACK_START_PAWNS),
                rooks: BitBoard(BLACK_START_ROOKS),
                knights: BitBoard(BLACK_START_KNIGHTS),
                bishops: BitBoard(BLACK_START_BISHOPS),
                queens: BitBoard(BLACK_START_QUEENS),
                king: BitBoard(BLACK_START_KINGS),
            },
        }
    }
}

impl Default for PlayerBoard {
    /// A board without pieces.
    fn default() -> (r: Self)
        ensures
            r == (PlayerBoard {
                pawns: BitBoard(0),
                rooks: BitBoard(0),
                knights: BitBoard(0),
                bishops: BitBoard(0),
                queens: BitBoard(0),
                king: BitBoard(0),
            }),
            r.all_bits() == 0,
            forall|p: Piece| #[trigger] r.bits(p) == 0,
    {
        assert(0u64 | 0u64 | 0u64 | 0u64 | 0u64 | 0u64 == 0u64) by (bit_vector);
        PlayerBoard {
            pawns: BitBoard(0),
            rooks: BitBoard(0),
            knights: BitBoard(0),
            bishops: BitBoard(0),
            queens: BitBoard(0),
            king: BitBoard(0),
        }
    }
}

} // verus!
