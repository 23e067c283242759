//! A rank on the chess board.

use vstd::prelude::*;

use crate::board::bitboard::BitBoard;

verus! {

/// Represents a rank on a chessboard.
#[derive(PartialEq, Eq, Structural, Clone, Copy, Debug)]
pub enum Rank {
    /// Rank 1.
    One,
    /// Rank 2.
    Two,
    /// Rank 3.
    Three,
    /// Rank 4.
    Four,
    /// Rank 5.
    Five,
    /// Rank 6.
    Six,
    /// Rank 7.
    Seven,
    /// Rank 8.
    Eight,
}


impl Rank {
    /// The number of the rank, from 0 (rank 1) to 7 (rank 8).
    pub open spec fn index(self) -> int {
        match self {
            Rank::One => 0,
            Rank::Two => 1,
            Rank::Three => 2,
            Rank::Four => 3,
            Rank::Five => 4,
            Rank::Six => 5,
            Rank::Seven => 6,
            Rank::Eight => 7,
        }
    }

    /// The rank with the given number.
    pub open spec fn from_index_spec(i: int) -> Rank {
        if i <= 0 {
            Rank::One
        } else if i == 1 {
            Rank::Two
        } else if i == 2 {
            Rank::Three
        } else if i == 3 {
            Rank::Four
        } else if i == 4 {
            Rank::Five
        } else if i == 5 {
            Rank::Six
        } else if i == 6 {
            Rank::Seven
        } else {
            Rank::Eight
        }
    }

    /// Obtains a rank from the given index.
    pub fn from_index(index: u8) -> (r: Self)
        requires
            index < 8,
        ensures
            r.index() == index,
            r == Rank::from_index_spec(index as int),
    {
        match index {
            0 => Rank::One,
            1 => Rank::Two,
            2 => Rank::Three,
            3 => Rank::Four,
            4 => Rank::Five,
            5 => Rank::Six,
            6 => Rank::Seven,
            _ => Rank::Eight,
        }
    }

    /// Converts the rank to an index.
    pub fn to_index(&self) -> (r: u8)
        ensures
            r as int == self.index(),
    {
        match self {
            Rank::One => 0,
            Rank::Two => 1,
            Rank::Three => 2,
            Rank::Four => 3,
            Rank::Five => 4,
            Rank::Six => 5,
            Rank::Seven => 6,
            Rank::Eight => 7,
        }
    }

    /// Converts the rank to a [BitBoard] of its eight squares.
    pub fn to_bitboard(&self) -> (r: BitBoard)
        ensures
            r.0 == 0xFFu64 << (8 * self.index()) as u64,
    {
        let i = self.to_index() as u64;
        BitBoard::new(0xFFu64 << (i * 8))
    }

    /// Returns all the ranks, from the first to the eighth.
    pub fn iter() -> (r: Vec<Rank>)
        ensures
            r@ == seq![
                Rank::One,
                Rank::Two,
                Rank::Three,
                Rank::Four,
                Rank::Five,
                Rank::Six,
                Rank::Seven,
                Rank::Eight,
            ],
    {
        vec![Rank::One, Rank::Two, Rank::Three, Rank::Four, Rank::Five, Rank::Six, Rank::Seven, Rank::Eight]
    }

    /// Returns the next rank, or none if on the eighth rank.
    pub fn next(&self) -> (r: Option<Rank>)
        ensures
            self.index() < 7 ==> r == Some(Rank::from_index_spec(self.index() + 1)),
            self.index() == 7 ==> r is None,
    {
        match *self {
            Rank::One => Some(Rank::Two),
            Rank::Two => Some(Rank::Three),
            Rank::Three => Some(Rank::Four),
            Rank::Four => Some(Rank::Five),
            Rank::Five => Some(Rank::Six),
            Rank::Six => Some(Rank::Seven),
            Rank::Seven => Some(Rank::Eight),
            Rank::Eight => None,
        }
    }

    /// Returns the previous rank, or none if on the first rank.
    pub fn prev(&self) -> (r: Option<Rank>)
        ensures
            self.index() > 0 ==> r == Some(Rank::from_index_spec(self.index() - 1)),
            self.index() == 0 ==> r is None,
    {
        match *self {
            Rank::One => None,
            Rank::Two => Some(Rank::One),
            Rank::Three => Some(Rank::Two),
            Rank::Four => Some(Rank::Three),
            Rank::Five => Some(Rank::Four),
            Rank::Six => Some(Rank::Five),
            Rank::Seven => Some(Rank::Six),
            Rank::Eight => Some(Rank::Seven),
        }
    }
}

} // verus!
