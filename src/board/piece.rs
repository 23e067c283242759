//! A chess piece type.

use vstd::prelude::*;

verus! {

/// Represents a chess piece type.
#[derive(PartialEq, Eq, Structural, Clone, Copy, Debug)]
pub enum Piece {
    /// Pawn.
    Pawn,
    /// Rook.
    Rook,
    /// Knight.
    Knight,
    /// Bishop.
    Bishop,
    /// Queen.
    Queen,
    /// King.
    King,
}

impl Piece {
    /// Returns all the pieces.
    pub fn iter() -> (r: Vec<Piece>)
        ensures
            r@ == seq![
                Piece::Pawn,
                Piece::Rook,
                Piece::Knight,
                Piece::Bishop,
                Piece::Queen,
                Piece::King,
            ],
    {
        vec![Piece::Pawn, Piece::Rook, Piece::Knight, Piece::Bishop, Piece::Queen, Piece::King]
    }

    /// Returns all the pieces except the pawn (including the king).
    pub fn iter_non_pawn() -> (r: Vec<Piece>)
        ensures
            r@ == seq![Piece::Rook, Piece::Knight, Piece::Bishop, Piece::Queen, Piece::King],
    {
        vec![Piece::Rook, Piece::Knight, Piece::Bishop, Piece::Queen, Piece::King]
    }

    /// Returns the pieces that a pawn may promote to: all but the pawn and the king.
    pub fn iter_pieces() -> (r: Vec<Piece>)
        ensures
            r@ == seq![Piece::Rook, Piece::Knight, Piece::Bishop, Piece::Queen],
    {
        vec![Piece::Rook, Piece::Knight, Piece::Bishop, Piece::Queen]
    }
}

} // verus!
