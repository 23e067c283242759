//! Check and checkmate detection.

use vstd::prelude::*;

use crate::board::bitboard::bit;
use crate::board::piece::Piece;
use crate::board::player::Player;
use crate::board::square::Square;
use crate::rules::game_state::GameState;
use crate::rules::legal_moves::is_legal;
use crate::rules::move_application::Move;
use crate::rules::semilegal_moves::attacks_spec;

verus! {

/// Whether a piece of the given kind of the opponent of `player` could
/// capture on square `k`: the captures of such a piece placed on `k` for
/// `player` meet the opponent's pieces of that kind.
pub open spec fn attacked_by(s: GameState, player: Player, k: int, piece: Piece) -> bool {
    let own = s.board_of(player);
    let opp = s.board_of(player.opponent());
    attacks_spec(piece, k, player, own.all_bits(), opp.all_bits()) & opp.bits(piece) != 0
}

/// Whether the square `k` of `player` is attacked by the opponent.
pub open spec fn attacked(s: GameState, player: Player, k: int) -> bool {
    attacked_by(s, player, k, Piece::Pawn) || attacked_by(s, player, k, Piece::Rook)
        || attacked_by(s, player, k, Piece::Knight) || attacked_by(s, player, k, Piece::Bishop)
        || attacked_by(s, player, k, Piece::Queen) || attacked_by(s, player, k, Piece::King)
}

/// Whether the king of `player` stands on an attacked square.
pub open spec fn in_check(s: GameState, player: Player) -> bool {
    exists|k: int| 0 <= k < 64 && bit(s.board_of(player).king.0, k) && #[trigger] attacked(s, player, k)
}

impl GameState {
    /// Returns true if the given square of the given player is attacked by the opponent.
    pub fn is_attacked(&self, square: Square, player: Player) -> (r: bool)
        ensures
            r == attacked(*self, player, square.index()),
    {
        let own_pieces = self.player_board(player).all();
        let opponent = self.player_board(player.other());
        let opponent_pieces = opponent.all();
        let pieces = Piece::iter();
        let mut i: usize = 0;
        while i < pieces.len()
            invariant
                pieces@ == seq![
                    Piece::Pawn,
                    Piece::Rook,
                    Piece::Knight,
                    Piece::Bishop,
                    Piece::Queen,
                    Piece::King,
                ],
                i <= pieces@.len(),
                own_pieces.0 == self.board_of(player).all_bits(),
                opponent == self.board_of(player.opponent()),
                opponent_pieces.0 == opponent.all_bits(),
                forall|j: int| 0 <= j < i ==> !attacked_by(*self, player, square.index(), #[trigger] pieces@[j]),
            decreases pieces.len() - i,
        {
            let p = pieces[i];
            if !(p.attacks(square, player, own_pieces, opponent_pieces).0 & opponent.piece(p).0 == 0) {
                return true;
            }
            i = i + 1;
        }
        assert(!attacked_by(*self, player, square.index(), pieces@[5]));
        assert(!attacked_by(*self, player, square.index(), pieces@[4]));
        assert(!attacked_by(*self, player, square.index(), pieces@[3]));
        assert(!attacked_by(*self, player, square.index(), pieces@[2]));
        assert(!attacked_by(*self, player, square.index(), pieces@[1]));
        assert(!attacked_by(*self, player, square.index(), pieces@[0]));
        false
    }

    /// Returns true if the given player is in check: a square of the player's
    /// king is attacked.
    pub fn is_check(&self, player: Player) -> (r: bool)
        ensures
            r == in_check(*self, player),
    {
        let kings = self.player_board(player).king.iter();
        let mut i: usize = 0;
        while i < kings.len()
            invariant
                i <= kings@.len(),
                forall|k: int| 0 <= k < kings@.len() ==> #[trigger] self.board_of(player).king.has(kings@[k].index()),
                forall|j: int|
                    0 <= j < 64 && #[trigger] self.board_of(player).king.has(j) ==> exists|k: int|
                        0 <= k < kings@.len() && kings@[k].index() == j,
                forall|j: int| 0 <= j < i ==> !attacked(*self, player, #[trigger] kings@[j].index()),
            decreases kings.len() - i,
        {
            let square = kings[i];
            if self.is_attacked(square, player) {
                proof {
                    use_type_invariant(square);
                    let k = kings@[i as int].index();
                    assert(self.board_of(player).king.has(k));
                    assert(attacked(*self, player, k));
                }
                return true;
            }
            i = i + 1;
        }
        proof {
            assert forall|k: int| 0 <= k < 64 && bit(self.board_of(player).king.0, k) implies !#[trigger] attacked(*self, player, k) by {
                assert(self.board_of(player).king.has(k));
                let j = choose|j: int| 0 <= j < kings@.len() && kings@[j].index() == k;
                assert(!attacked(*self, player, kings@[j].index()));
            }
        }
        false
    }

    /// Whether the player to move has no legal move.
    pub open spec fn no_legal_move(self) -> bool {
        forall|m: Move| !#[trigger] is_legal(self, m)
    }

    /// Returns true if the player to move has no legal move.
    fn has_no_legal_move(&self) -> (r: bool)
        requires
            self.counters_fit(),
        ensures
            r == self.no_legal_move(),
    {
        let moves = self.legal_moves();
        if moves.len() > 0 {
            assert(moves@.contains(moves@[0]));
            false
        } else {
            assert forall|m: Move| !#[trigger] is_legal(*self, m) by {
                if is_legal(*self, m) {
                    assert(moves@.contains(m));
                }
            }
            true
        }
    }

    /// Returns true if the given player is in check and the player to move has
    /// no legal move.
    pub fn is_mate(&self, player: Player) -> (r: bool)
        requires
            self.counters_fit(),
        ensures
            r == (in_check(*self, player) && self.no_legal_move()),
    {
        self.is_check(player) && self.has_no_legal_move()
    }

    /// Returns true if the given player is not in check and the player to move
    /// has no legal move.
    pub fn is_stale_mate(&self, player: Player) -> (r: bool)
        requires
            self.counters_fit(),
        ensures
            r == (!in_check(*self, player) && self.no_legal_move()),
    {
        !self.is_check(player) && self.has_no_legal_move()
    }
}

} // verus!
