//! A chess player.

use vstd::prelude::*;

verus! {

/// Represents a player.
#[derive(PartialEq, Eq, Structural, Clone, Copy, Debug)]
pub enum Player {
    /// White player.
    White,
    /// Black player.
    Black,
}

impl Player {
    /// The opponent of the player.
    pub open spec fn opponent(self) -> Player {
        match self {
            Player::White => Player::Black,
            Player::Black => Player::White,
        }
    }

    /// Returns the other player.
    pub fn other(&self) -> (r: Self)
        ensures
            r == self.opponent(),
    {
        match *self {
            Player::White => Player::Black,
            Player::Black => Player::White,
        }
    }
}

} // verus!
