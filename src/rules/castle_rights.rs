//! The castle rights.

use vstd::prelude::*;

verus! {

/// The castle rights of one player.
#[derive(PartialEq, Eq, Structural, Clone, Copy, Debug)]
pub enum CastleRights {
    /// No castle available.
    Neither,
    /// King-side castle available.
    KingSide,
    /// Queen-side castle available.
    QueenSide,
    /// King-side and queen-side castle available.
    Both,
}

impl CastleRights {
    /// Whether a king-side castle is allowed.
    pub open spec fn has_king_side(self) -> bool {
        self == CastleRights::Both || self == CastleRights::KingSide
    }

    /// Whether a queen-side castle is allowed.
    pub open spec fn has_queen_side(self) -> bool {
        self == CastleRights::Both || self == CastleRights::QueenSide
    }

    /// The rights without the king side.
    pub open spec fn minus_king_side(self) -> CastleRights {
        match self {
            CastleRights::Both => CastleRights::QueenSide,
            CastleRights::QueenSide => CastleRights::QueenSide,
            _ => CastleRights::Neither,
        }
    }

    /// The rights without the queen side.
    pub open spec fn minus_queen_side(self) -> CastleRights {
        match self {
            CastleRights::Both => CastleRights::KingSide,
            CastleRights::KingSide => CastleRights::KingSide,
            _ => CastleRights::Neither,
        }
    }

    /// The rights with the king side added.
    pub open spec fn plus_king_side(self) -> CastleRights {
        match self {
            CastleRights::Neither => CastleRights::KingSide,
            CastleRights::QueenSide => CastleRights::Both,
            other => other,
        }
    }

    /// The rights with the queen side added.
    pub open spec fn plus_queen_side(self) -> CastleRights {
        match self {
            CastleRights::Neither => CastleRights::QueenSide,
            CastleRights::KingSide => CastleRights::Both,
            other => other,
        }
    }

    /// Returns true if a queen side castle is available.
    pub fn is_queen_side_available(&self) -> (r: bool)
        ensures
            r == self.has_queen_side(),
    {
        *self == CastleRights::Both || *self == CastleRights::QueenSide
    }

    /// Returns true if a king side castle is available.
    pub fn is_king_side_available(&self) -> (r: bool)
        ensures
            r == self.has_king_side(),
    {
        *self == CastleRights::Both || *self == CastleRights::KingSide
    }

    /// Returns the castle rights without the king side.
    pub fn without_king_side(self) -> (r: CastleRights)
        requires
            self.has_king_side(),
        ensures
            r == self.minus_king_side(),
            !r.has_king_side(),
            r.has_queen_side() == self.has_queen_side(),
    {
        match self {
            CastleRights::Both => CastleRights::QueenSide,
            _ => CastleRights::Neither,
        }
    }

    /// Returns the castle rights without the queen side.
    pub fn without_queen_side(self) -> (r: CastleRights)
        requires
            self.has_queen_side(),
        ensures
            r == self.minus_queen_side(),
            !r.has_queen_side(),
            r.has_king_side() == self.has_king_side(),
    {
        match self {
            CastleRights::Both => CastleRights::KingSide,
            _ => CastleRights::Neither,
        }
    }

    /// Returns the castle rights with the king side set.
    pub fn with_king_side(self) -> (r: CastleRights)
        ensures
            r == self.plus_king_side(),
            r.has_king_side(),
            r.has_queen_side() == self.has_queen_side(),
    {
        match self {
            CastleRights::Neither => CastleRights::KingSide,
            CastleRights::QueenSide => CastleRights::Both,
            other => other,
        }
    }

    /// Returns the castle rights with the queen side set.
    pub fn with_queen_side(self) -> (r: CastleRights)
        ensures
            r == self.plus_queen_side(),
            r.has_queen_side(),
            r.has_king_side() == self.has_king_side(),
    {
        match self {
            CastleRights::Neither => CastleRights::QueenSide,
            CastleRights::KingSide => CastleRights::Both,
            other => other,
        }
    }
}

} // verus!
