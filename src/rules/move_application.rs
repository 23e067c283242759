//! A movement of a piece, and its application to a game state.

use vstd::prelude::*;

use crate::board::bitboard::{bit, single, BitBoard};
use crate::board::piece::Piece;
use crate::board::player::Player;
use crate::board::square::Square;
use crate::rules::castle_rights::CastleRights;
use crate::rules::game_state::GameState;
use crate::rules::player_board::PlayerBoard;

verus! {

broadcast use crate::board::square::Square::lemma_at_index;

/// Represents the direction of a castle move.
#[derive(PartialEq, Eq, Structural, Clone, Copy, Debug)]
pub enum CastleMove {
    /// A king-side castle.
    KingSide,
    /// A queen-side castle.
    QueenSide,
}

/// A movement of a piece (a 'move').
#[derive(PartialEq, Eq, Structural, Clone, Copy, Debug)]
pub struct Move {
    /// The type of the piece which moved, king if castle.
    pub piece: Piece,
    /// The square the piece moved from.
    pub origin: Square,
    /// The square the piece moved to.
    pub target: Square,
    /// True if the move was a capture.
    pub capture: bool,
    /// True if the capture was en-passant.
    pub en_passant: bool,
    /// Present and containing the target piece if the move was a promotion.
    pub promotion: Option<Piece>,
    /// Present and containing the castle direction if the move was a castle.
    pub castle: Option<CastleMove>,
}

/// The first square of the back rank of `player`.
pub open spec fn back_rank_start(player: Player) -> int {
    match player {
        Player::White => 0,
        Player::Black => 56,
    }
}

/// The squares of `bits` with `from` moved to `to`.
pub open spec fn moved(bits: u64, from: int, to: int) -> u64 {
    (bits & !single(from)) | single(to)
}

/// The board of `player` after castling to the given side: the king on the
/// G or C file and the rook from the H or A file beside it.
pub open spec fn castled(board: PlayerBoard, player: Player, side: CastleMove) -> PlayerBoard {
    let base = back_rank_start(player);
    match side {
        CastleMove::KingSide => PlayerBoard {
            king: BitBoard(single(base + 6)),
            rooks: BitBoard(moved(board.rooks.0, base + 7, base + 5)),
            ..board
        },
        CastleMove::QueenSide => PlayerBoard {
            king: BitBoard(single(base + 2)),
            rooks: BitBoard(moved(board.rooks.0, base, base + 3)),
            ..board
        },
    }
}

/// The board without the piece on square `t`, the kinds looked at in a fixed order.
pub open spec fn without_piece_at(board: PlayerBoard, t: int) -> PlayerBoard {
    let m = !single(t);
    if bit(board.pawns.0, t) {
        PlayerBoard { pawns: BitBoard(board.pawns.0 & m), ..board }
    } else if bit(board.rooks.0, t) {
        PlayerBoard { rooks: BitBoard(board.rooks.0 & m), ..board }
    } else if bit(board.knights.0, t) {
        PlayerBoard { knights: BitBoard(board.knights.0 & m), ..board }
    } else if bit(board.bishops.0, t) {
        PlayerBoard { bishops: BitBoard(board.bishops.0 & m), ..board }
    } else if bit(board.queens.0, t) {
        PlayerBoard { queens: BitBoard(board.queens.0 & m), ..board }
    } else if bit(board.king.0, t) {
        PlayerBoard { king: BitBoard(board.king.0 & m), ..board }
    } else {
        board
    }
}

/// The square that a pawn of `player` passes over when it steps from `origin`
/// to `target`, if that is its double step from its home rank.
pub open spec fn passed_square(player: Player, origin: int, target: int) -> Option<Square> {
    match player {
        Player::White => if origin / 8 == 1 && target / 8 == 3 {
            Some(Square::at(origin + 8))
        } else {
            None
        },
        Player::Black => if origin / 8 == 6 && target / 8 == 4 {
            Some(Square::at(origin - 8))
        } else {
            None
        },
    }
}

/// The square of the pawn taken en passant by a pawn of `player` that lands
/// on `target`: one rank behind the target, toward the player's own side.
pub open spec fn taken_en_passant(player: Player, target: int) -> int {
    match player {
        Player::White => target - 8,
        Player::Black => target + 8,
    }
}

/// The board without a pawn on square `t`, if `t` is on the board.
pub open spec fn without_pawn_at(board: PlayerBoard, t: int) -> PlayerBoard {
    if 0 <= t < 64 {
        PlayerBoard { pawns: BitBoard(board.pawns.0 & !single(t)), ..board }
    } else {
        board
    }
}

/// The boards and en-passant square after the pieces of `mv` are placed, by
/// the shape of the move: castle, promotion, quiet move, en-passant capture or
/// ordinary capture, in that order of precedence.
pub open spec fn placed(s: GameState, mv: Move) -> GameState {
    let p = s.player_turn;
    let o = p.opponent();
    let own = s.board_of(p);
    let opp = s.board_of(o);
    let from = mv.origin.index();
    let to = mv.target.index();
    let cleared = GameState { en_passant: None, ..s };
    match mv.castle {
        Some(side) => cleared.with_board_of(p, castled(own, p, side)),
        None => match mv.promotion {
            Some(q) => {
                let own1 = own.replace(Piece::Pawn, own.pawns.0 & !single(from));
                let own2 = own1.replace(q, own1.bits(q) | single(to));
                let opp2 = if mv.capture {
                    without_piece_at(opp, to)
                } else {
                    opp
                };
                cleared.with_board_of(p, own2).with_board_of(o, opp2)
            },
            None => if !mv.capture {
                let own2 = own.replace(mv.piece, moved(own.bits(mv.piece), from, to));
                let ep = if mv.piece == Piece::Pawn {
                    passed_square(p, from, to)
                } else {
                    None
                };
                GameState { en_passant: ep, ..cleared.with_board_of(p, own2) }
            } else if mv.en_passant {
                let own2 = own.replace(Piece::Pawn, moved(own.pawns.0, from, to));
                let opp2 = without_pawn_at(opp, taken_en_passant(p, to));
                cleared.with_board_of(p, own2).with_board_of(o, opp2)
            } else {
                let own2 = own.replace(mv.piece, moved(own.bits(mv.piece), from, to));
                cleared.with_board_of(p, own2).with_board_of(o, without_piece_at(opp, to))
            },
        },
    }
}

/// The castle rights of the mover after the move: none after a castle or a
/// king move, and the side of a rook that leaves its home square taken away.
pub open spec fn rights_after(s: GameState, mv: Move) -> CastleRights {
    let p = s.player_turn;
    let rights = s.rights_of(p);
    let base = back_rank_start(p);
    if mv.castle is Some || mv.piece == Piece::King {
        CastleRights::Neither
    } else if mv.piece == Piece::Rook && mv.origin.index() == base + 7 {
        rights.minus_king_side()
    } else if mv.piece == Piece::Rook && mv.origin.index() == base {
        rights.minus_queen_side()
    } else {
        rights
    }
}

/// The state after `mv` is made in `s`: the pieces placed, the turn passed
/// on, the full turns counted after Black's move, the draw counter reset by a
/// capture or a pawn move, and the mover's castle rights updated.
pub open spec fn apply_spec(s: GameState, mv: Move) -> GameState {
    let p = s.player_turn;
    let after = placed(s, mv);
    GameState {
        player_turn: p.opponent(),
        full_turns: if p == Player::Black {
            (s.full_turns + 1) as usize
        } else {
            s.full_turns
        },
        draw_plies: if mv.capture || mv.piece == Piece::Pawn {
            0
        } else {
            (s.draw_plies + 1) as usize
        },
        ..after
    }.with_rights_of(p, rights_after(s, mv))
}

impl GameState {
    /// Whether the counters of the state can count one more move.
    pub open spec fn counters_fit(self) -> bool {
        self.draw_plies < usize::MAX && self.full_turns < usize::MAX
    }

    /// Apply a given move to the board.
    ///
    /// Returns the game state after the move:
    /// - a castle moves the king and the rook and takes away the castle rights;
    /// - a promotion replaces the pawn by the promoted piece on the target square,
    ///   taking the piece there if it is a capture;
    /// - a quiet move moves the piece, and a pawn's double step sets the en-passant square;
    /// - an en-passant capture moves the pawn and removes the pawn passed by;
    /// - an ordinary capture moves the piece and removes the piece on the target square.
    ///
    /// It also passes the turn, counts full turns and the half-turns since the last
    /// capture or pawn move, and updates the castle rights after a king or rook move.
    /// The move is meant to be one of the state's legal moves.
    pub fn apply_move(&self, mv: &Move) -> (r: Self)
        requires
            self.counters_fit(),
        ensures
            r == apply_spec(*self, *mv),
    {
        let mut new_state = *self;
        new_state.en_passant = None;
        match mv.castle {
            Some(castle_move) => new_state.apply_castle(castle_move),
            None => {
                if mv.promotion.is_some() {
                    new_state.apply_promotion(mv);
                } else if !mv.capture {
                    new_state.apply_non_capture(mv);
                } else if mv.en_passant {
                    new_state.apply_en_passant(mv);
                } else {
                    new_state.apply_capture(mv);
                }
            },
        }
        if self.player_turn == Player::Black {
            new_state.full_turns = new_state.full_turns + 1;
        }
        new_state.player_turn = self.player_turn.other();
        if mv.capture || mv.piece == Piece::Pawn {
            new_state.draw_plies = 0;
        } else {
            new_state.draw_plies = new_state.draw_plies + 1;
        }
        let rights = self.castle_rights(self.player_turn);
        let base: u8 = match self.player_turn {
            Player::White => 0,
            Player::Black => 56,
        };
        if mv.castle.is_some() || mv.piece == Piece::King {
            new_state.set_castle_rights(self.player_turn, CastleRights::Neither);
        } else if mv.piece == Piece::Rook && mv.origin.to_index() == base + 7 {
            if rights.is_king_side_available() {
                new_state.set_castle_rights(self.player_turn, rights.without_king_side());
            }
        } else if mv.piece == Piece::Rook && mv.origin.to_index() == base {
            if rights.is_queen_side_available() {
                new_state.set_castle_rights(self.player_turn, rights.without_queen_side());
            }
        }
        new_state
    }

    /// Replaces the board of the given player.
    fn set_board(&mut self, player: Player, board: PlayerBoard)
        ensures
            *final(self) == old(self).with_board_of(player, board),
    {
        match player {
            Player::White => self.white_board = board,
            Player::Black => self.black_board = board,
        }
    }

    /// Applies castling to the state.
    fn apply_castle(&mut self, castle_move: CastleMove)
        ensures
            *final(self) == old(self).with_board_of(
                old(self).player_turn,
                castled(old(self).board_of(old(self).player_turn), old(self).player_turn, castle_move),
            ).with_rights_of(old(self).player_turn, CastleRights::Neither),
    {
        let player = self.player_turn;
        let board = self.player_board(player);
        let base: u8 = match player {
            Player::White => 0,
            Player::Black => 56,
        };
        let new_board = match castle_move {
            CastleMove::KingSide => board.with_king(Square::new(base + 6).to_bitboard()).with_rooks(
                board.rooks.unset_square(Square::new(base + 7)).set_square(Square::new(base + 5)),
            ),
            CastleMove::QueenSide => board.with_king(Square::new(base + 2).to_bitboard()).with_rooks(
                board.rooks.unset_square(Square::new(base)).set_square(Square::new(base + 3)),
            ),
        };
        self.set_board(player, new_board);
        self.set_castle_rights(player, CastleRights::Neither);
    }

    /// Removes the opponent's piece on the given square.
    fn remove_opponent_piece(&mut self, target: Square)
        ensures
            *final(self) == old(self).with_board_of(
                old(self).player_turn.opponent(),
                without_piece_at(old(self).board_of(old(self).player_turn.opponent()), target.index()),
            ),
    {
        let opponent = self.player_turn.other();
        let board = self.player_board(opponent);
        let new_board = if board.pawns.is_square_set(target) {
            board.with_pawns(board.pawns.unset_square(target))
        } else if board.rooks.is_square_set(target) {
            board.with_rooks(board.rooks.unset_square(target))
        } else if board.knights.is_square_set(target) {
            board.with_knights(board.knights.unset_square(target))
        } else if board.bishops.is_square_set(target) {
            board.with_bishops(board.bishops.unset_square(target))
        } else if board.queens.is_square_set(target) {
            board.with_queens(board.queens.unset_square(target))
        } else if board.king.is_square_set(target) {
            board.with_king(board.king.unset_square(target))
        } else {
            board
        };
        self.set_board(opponent, new_board);
    }

    /// Applies a promoting move to the state.
    fn apply_promotion(&mut self, mv: &Move)
        requires
            old(self).en_passant is None,
            mv.promotion is Some,
            mv.castle is None,
        ensures
            *final(self) == placed(*old(self), *mv),
    {
        let player = self.player_turn;
        let promoted = match mv.promotion {
            Some(p) => p,
            None => Piece::Queen,
        };
        let board = self.player_board(player);
        let without_pawn = board.with_pawns(board.pawns.unset_square(mv.origin));
        let new_board = without_pawn.with_piece(
            promoted,
            without_pawn.piece(promoted).set_square(mv.target),
        );
        self.set_board(player, new_board);
        if mv.capture {
            self.remove_opponent_piece(mv.target);
        }
    }

    /// Applies a non-capturing move to the state.
    fn apply_non_capture(&mut self, mv: &Move)
        requires
            old(self).en_passant is None,
            mv.promotion is None,
            mv.castle is None,
            !mv.capture,
        ensures
            *final(self) == placed(*old(self), *mv),
    {
        let player = self.player_turn;
        let board = self.player_board(player);
        let new_board = board.with_piece(
            mv.piece,
            board.piece(mv.piece).unset_square(mv.origin).set_square(mv.target),
        );
        self.set_board(player, new_board);
        if mv.piece == Piece::Pawn {
            let from = mv.origin.to_index();
            let to = mv.target.to_index();
            match player {
                Player::White => if from / 8 == 1 && to / 8 == 3 {
                    self.en_passant = Some(Square::new(from + 8));
                },
                Player::Black => if from / 8 == 6 && to / 8 == 4 {
                    self.en_passant = Some(Square::new(from - 8));
                },
            }
        }
    }

    /// Applies an en-passant capture to the state.
    fn apply_en_passant(&mut self, mv: &Move)
        requires
            old(self).en_passant is None,
            mv.promotion is None,
            mv.castle is None,
            mv.capture,
            mv.en_passant,
        ensures
            *final(self) == placed(*old(self), *mv),
    {
        let player = self.player_turn;
        let opponent = player.other();
        let board = self.player_board(player);
        self.set_board(
            player,
            board.with_pawns(board.pawns.unset_square(mv.origin).set_square(mv.target)),
        );
        let to = mv.target.to_index();
        let opponent_board = self.player_board(opponent);
        match player {
            Player::White => if to >= 8 {
                self.set_board(
                    opponent,
                    opponent_board.with_pawns(opponent_board.pawns.unset_square(Square::new(to - 8))),
                );
            },
            Player::Black => if to < 56 {
                self.set_board(
                    opponent,
                    opponent_board.with_pawns(opponent_board.pawns.unset_square(Square::new(to + 8))),
                );
            },
        }
    }

    /// Applies an ordinary capture move to the state.
    fn apply_capture(&mut self, mv: &Move)
        requires
            old(self).en_passant is None,
            mv.promotion is None,
            mv.castle is None,
            mv.capture,
            !mv.en_passant,
        ensures
            *final(self) == placed(*old(self), *mv),
    {
        let player = self.player_turn;
        let board = self.player_board(player);
        self.set_board(
            player,
            board.with_piece(
                mv.piece,
                board.piece(mv.piece).unset_square(mv.origin).set_square(mv.target),
            ),
        );
        self.remove_opponent_piece(mv.target);
    }
}

} // verus!
