//! Generation of legal moves.

use vstd::prelude::*;

use crate::board::bitboard::{bit, BitBoard};
use crate::board::piece::Piece;
use crate::board::player::Player;
use crate::board::square::Square;
use crate::rules::check_detection::{attacked, in_check};
use crate::rules::game_state::GameState;
use crate::rules::move_application::{apply_spec, back_rank_start, CastleMove, Move};
use crate::rules::semilegal_moves::{attacks_spec, moves_spec};

verus! {

/// The rank on which the pawns of `player` promote.
pub open spec fn last_rank(player: Player) -> int {
    match player {
        Player::White => 7,
        Player::Black => 0,
    }
}

/// The rank from which a pawn of `player` may capture en passant.
pub open spec fn en_passant_rank(player: Player) -> int {
    match player {
        Player::White => 4,
        Player::Black => 3,
    }
}

/// Whether the promotion of a move of `piece` of `player` to square `to` is
/// right: a pawn reaching its last rank promotes to a rook, knight, bishop or
/// queen; any other move promotes to nothing.
pub open spec fn promotion_fits(player: Player, piece: Piece, to: int, promotion: Option<Piece>) -> bool {
    if piece == Piece::Pawn && to / 8 == last_rank(player) {
        match promotion {
            Some(q) => q == Piece::Rook || q == Piece::Knight || q == Piece::Bishop || q == Piece::Queen,
            None => false,
        }
    } else {
        promotion is None
    }
}

/// The squares that `piece` of the player to move on square `from` may move to
/// (for a capture, capture on).
pub open spec fn step_targets(s: GameState, piece: Piece, from: int, capture: bool) -> u64 {
    let p = s.player_turn;
    let own = s.board_of(p).all_bits();
    let opp = s.board_of(p.opponent()).all_bits();
    if capture {
        attacks_spec(piece, from, p, own, opp)
    } else {
        moves_spec(piece, from, p, own | opp)
    }
}

/// Whether `m` is an ordinary move of one of the mover's pieces: a quiet move
/// or a capture by the piece's own rule, with its promotion if any.
pub open spec fn is_step(s: GameState, m: Move) -> bool {
    &&& m.castle is None
    &&& !m.en_passant
    &&& bit(s.board_of(s.player_turn).bits(m.piece), m.origin.index())
    &&& bit(step_targets(s, m.piece, m.origin.index(), m.capture), m.target.index())
    &&& promotion_fits(s.player_turn, m.piece, m.target.index(), m.promotion)
}

/// Whether `m` is an en-passant capture onto the state's en-passant square by
/// a pawn of the mover beside it on the rank before.
pub open spec fn is_en_passant_capture(s: GameState, m: Move) -> bool {
    match s.en_passant {
        Some(e) => {
            &&& m.piece == Piece::Pawn
            &&& m.target == e
            &&& m.capture
            &&& m.en_passant
            &&& m.promotion is None
            &&& m.castle is None
            &&& m.origin.index() / 8 == en_passant_rank(s.player_turn)
            &&& (m.origin.index() % 8 == e.index() % 8 + 1 || m.origin.index() % 8 + 1 == e.index() % 8)
            &&& bit(s.board_of(s.player_turn).pawns.0, m.origin.index())
        },
        None => false,
    }
}

/// Whether the mover may castle to the given side: the right is held, the
/// squares between king and rook are empty, and none of the squares that the
/// king stands on, crosses or lands on is attacked.
pub open spec fn castle_allowed(s: GameState, side: CastleMove) -> bool {
    let p = s.player_turn;
    let base = back_rank_start(p);
    let occupied = s.board_of(p).all_bits() | s.board_of(p.opponent()).all_bits();
    match side {
        CastleMove::KingSide => {
            &&& s.rights_of(p).has_king_side()
            &&& !bit(occupied, base + 5)
            &&& !bit(occupied, base + 6)
            &&& !attacked(s, p, base + 4)
            &&& !attacked(s, p, base + 5)
            &&& !attacked(s, p, base + 6)
        },
        CastleMove::QueenSide => {
            &&& s.rights_of(p).has_queen_side()
            &&& !bit(occupied, base + 1)
            &&& !bit(occupied, base + 2)
            &&& !bit(occupied, base + 3)
            &&& !attacked(s, p, base + 4)
            &&& !attacked(s, p, base + 3)
            &&& !attacked(s, p, base + 2)
        },
    }
}

/// Whether `m` is an allowed castle of the mover.
pub open spec fn is_castle(s: GameState, m: Move) -> bool {
    let base = back_rank_start(s.player_turn);
    match m.castle {
        Some(side) => {
            &&& castle_allowed(s, side)
            &&& m.piece == Piece::King
            &&& m.origin.index() == base + 4
            &&& m.target.index() == base + (if side == CastleMove::KingSide {
                6int
            } else {
                2int
            })
            &&& !m.capture
            &&& !m.en_passant
            &&& m.promotion is None
        },
        None => false,
    }
}

/// Whether `m` is a candidate move: one that follows the movement rules,
/// whether or not it leaves the mover's king in check.
pub open spec fn is_candidate(s: GameState, m: Move) -> bool {
    is_step(s, m) || is_en_passant_capture(s, m) || is_castle(s, m)
}

/// Whether `m` is a legal move: a candidate after which the mover's king is
/// not in check.
pub open spec fn is_legal(s: GameState, m: Move) -> bool {
    is_candidate(s, m) && !in_check(apply_spec(s, m), s.player_turn)
}

/// A sequence with one more element holds what it held and that element.
proof fn lemma_push_contains(v: Seq<Move>, x: Move, m: Move)
    ensures
        v.push(x).contains(m) <==> (v.contains(m) || m == x),
{
    if m == x {
        assert(v.push(x)[v.len() as int] == m);
    }
    if v.push(x).contains(m) {
        let j = choose|j: int| 0 <= j < v.len() + 1 && #[trigger] v.push(x)[j] == m;
        if j < v.len() {
            assert(v[j] == m);
        }
    }
    if v.contains(m) {
        let j = choose|j: int| 0 <= j < v.len() && #[trigger] v[j] == m;
        assert(v.push(x)[j] == m);
    }
}

/// Appends a move that the vector does not hold yet, and keeps count of
/// what the vector holds.
fn push_move(moves: &mut Vec<Move>, mv: Move)
    requires
        old(moves)@.no_duplicates(),
        !old(moves)@.contains(mv),
    ensures
        final(moves)@.no_duplicates(),
        forall|m: Move| #[trigger] final(moves)@.contains(m) <==> (old(moves)@.contains(m) || m == mv),
{
    let ghost before = moves@;
    moves.push(mv);
    proof {
        assert forall|a: int, b: int| 0 <= a < b < moves@.len() implies moves@[a] != moves@[b] by {
            if b == before.len() {
                assert(moves@[a] == before[a]);
                if before[a] == mv {
                    assert(before.contains(mv));
                }
            } else {
                assert(moves@[a] == before[a] && moves@[b] == before[b]);
            }
        }
        assert forall|m: Move| #[trigger] moves@.contains(m) <==> (before.contains(m) || m == mv) by {
            lemma_push_contains(before, mv, m);
        }
    }
}

/// Whether `m` is an ordinary move of `piece`, a capture or not as `capture` says.
pub open spec fn in_kind(m: Move, piece: Piece, capture: bool) -> bool {
    &&& m.piece == piece
    &&& m.capture == capture
    &&& !m.en_passant
    &&& m.castle is None
}

/// Whether `m` is an ordinary move of `piece` from `origin`, a capture or not
/// as `capture` says.
pub open spec fn in_group(m: Move, piece: Piece, origin: Square, capture: bool) -> bool {
    &&& m.piece == piece
    &&& m.origin == origin
    &&& m.capture == capture
    &&& !m.en_passant
    &&& m.castle is None
}

/// The moves of `piece` from `origin` onto a square of `targets`.
pub open spec fn move_onto(
    player: Player,
    piece: Piece,
    origin: Square,
    targets: u64,
    capture: bool,
    m: Move,
) -> bool {
    &&& m.piece == piece
    &&& m.origin == origin
    &&& bit(targets, m.target.index())
    &&& m.capture == capture
    &&& !m.en_passant
    &&& m.castle is None
    &&& promotion_fits(player, piece, m.target.index(), m.promotion)
}

/// Adds the moves of `piece` from `origin` onto each square of `targets`; a
/// pawn reaching its last rank gives one move per piece it may promote to.
fn push_moves(
    moves: &mut Vec<Move>,
    player: Player,
    piece: Piece,
    origin: Square,
    targets: BitBoard,
    capture: bool,
)
    requires
        old(moves)@.no_duplicates(),
        forall|m: Move| #[trigger] old(moves)@.contains(m) ==> !in_group(m, piece, origin, capture),
    ensures
        final(moves)@.no_duplicates(),
        forall|m: Move| #[trigger] final(moves)@.contains(m) <==> (old(moves)@.contains(m)
            || move_onto(player, piece, origin, targets.0, capture, m)),
{
    let ghost before = moves@;
    let squares = targets.iter();
    let last: u8 = match player {
        Player::White => 7,
        Player::Black => 0,
    };
    let promotions = Piece::iter_pieces();
    let mut j: usize = 0;
    while j < squares.len()
        invariant
            j <= squares@.len(),
            promotions@ == seq![Piece::Rook, Piece::Knight, Piece::Bishop, Piece::Queen],
            last as int == last_rank(player),
            forall|k: int| 0 <= k < squares@.len() ==> #[trigger] targets.has(squares@[k].index()),
            forall|i: int|
                0 <= i < 64 && #[trigger] targets.has(i) ==> exists|k: int|
                    0 <= k < squares@.len() && squares@[k].index() == i,
            forall|k1: int, k2: int|
                0 <= k1 < k2 < squares@.len() ==> #[trigger] squares@[k1].index()
                    < #[trigger] squares@[k2].index(),
            moves@.no_duplicates(),
            forall|m: Move| #[trigger] before.contains(m) ==> !in_group(m, piece, origin, capture),
            forall|m: Move| #[trigger] moves@.contains(m) <==> (before.contains(m) || (move_onto(
                player,
                piece,
                origin,
                targets.0,
                capture,
                m,
            ) && exists|k: int| 0 <= k < j && squares@[k] == m.target)),
        decreases squares.len() - j,
    {
        let target = squares[j];
        let ghost prev = moves@;
        let plain = Move {
            piece,
            origin,
            target,
            capture,
            en_passant: false,
            promotion: None,
            castle: None,
        };
        assert forall|m: Move| in_group(m, piece, origin, capture) && m.target == target
            implies !#[trigger] prev.contains(m) by {
            if exists|k: int| 0 <= k < j && squares@[k] == m.target {
                let k = choose|k: int| 0 <= k < j && squares@[k] == m.target;
                assert(squares@[k].index() < squares@[j as int].index());
            }
        }
        if piece == Piece::Pawn && target.rank().to_index() == last {
            let mut q: usize = 0;
            while q < promotions.len()
                invariant
                    q <= promotions@.len(),
                    promotions@ == seq![Piece::Rook, Piece::Knight, Piece::Bishop, Piece::Queen],
                    moves@.no_duplicates(),
                    plain == (Move {
                        piece,
                        origin,
                        target,
                        capture,
                        en_passant: false,
                        promotion: None,
                        castle: None,
                    }),
                    forall|m: Move|
                        in_group(m, piece, origin, capture) && m.target == target
                            ==> !#[trigger] prev.contains(m),
                    forall|m: Move| #[trigger] moves@.contains(m) <==> (prev.contains(m) || (m == Move {
                        promotion: m.promotion,
                        ..plain
                    } && exists|k: int| 0 <= k < q && m.promotion == Some(promotions@[k]))),
                decreases promotions.len() - q,
            {
                let ghost inner = moves@;
                let mv = Move { promotion: Some(promotions[q]), ..plain };
                proof {
                    assert(in_group(mv, piece, origin, capture) && mv.target == target);
                    if moves@.contains(mv) {
                        assert(!prev.contains(mv));
                        let k = choose|k: int| 0 <= k < q && mv.promotion == Some(promotions@[k]);
                        assert(promotions@[k] != promotions@[q as int]);
                    }
                }
                push_move(moves, mv);
                proof {
                    assert forall|m: Move| #[trigger] moves@.contains(m) <==> (prev.contains(m) || (m
                        == Move { promotion: m.promotion, ..plain } && exists|k: int|
                        0 <= k < q + 1 && m.promotion == Some(promotions@[k]))) by {
                        if m == mv {
                            assert(m.promotion == Some(promotions@[q as int]));
                        }
                        if m == (Move { promotion: m.promotion, ..plain }) && exists|k: int|
                            0 <= k < q + 1 && m.promotion == Some(promotions@[k]) {
                            let k = choose|k: int| 0 <= k < q + 1 && m.promotion == Some(promotions@[k]);
                            if k == q {
                                assert(m == mv);
                            }
                        }
                    }
                }
                q = q + 1;
            }
        } else {
            push_move(moves, plain);
        }
        proof {
            assert forall|m: Move| #[trigger] moves@.contains(m) <==> (before.contains(m) || (move_onto(
                player,
                piece,
                origin,
                targets.0,
                capture,
                m,
            ) && exists|k: int| 0 <= k < j + 1 && squares@[k] == m.target)) by {
                assert(targets.has(squares@[j as int].index()));
                if exists|k: int| 0 <= k < j + 1 && squares@[k] == m.target {
                    let k = choose|k: int| 0 <= k < j + 1 && squares@[k] == m.target;
                    assert(targets.has(squares@[k].index()));
                }
            }
        }
        j = j + 1;
    }
    proof {
        assert forall|m: Move| #[trigger] moves@.contains(m) <==> (before.contains(m) || move_onto(
            player,
            piece,
            origin,
            targets.0,
            capture,
            m,
        )) by {
            if move_onto(player, piece, origin, targets.0, capture, m) {
                let t = m.target;
                assert(targets.has(t.index()));
                let k = choose|k: int| 0 <= k < squares@.len() && squares@[k].index() == t.index();
                Square::lemma_index_injective(squares@[k], t);
            }
        }
    }
}

impl GameState {
    /// Adds the moves (or, for `capture`, the captures) of the mover's pieces
    /// of the given kind.
    fn push_piece_moves(&self, moves: &mut Vec<Move>, piece: Piece, capture: bool)
        requires
            old(moves)@.no_duplicates(),
            forall|m: Move| #[trigger] old(moves)@.contains(m) ==> !in_kind(m, piece, capture),
        ensures
            final(moves)@.no_duplicates(),
            forall|m: Move| #[trigger] final(moves)@.contains(m) <==> (old(moves)@.contains(m) || (
            m.piece == piece && m.capture == capture && is_step(*self, m))),
    {
        let ghost before = moves@;
        let player = self.player_turn;
        let own_board = self.player_board(player);
        let own_pieces = own_board.all();
        let opponent_pieces = self.player_board(player.other()).all();
        let pieces = own_board.piece(piece);
        let origins = pieces.iter();
        let mut j: usize = 0;
        while j < origins.len()
            invariant
                j <= origins@.len(),
                player == self.player_turn,
                own_pieces.0 == self.board_of(player).all_bits(),
                opponent_pieces.0 == self.board_of(player.opponent()).all_bits(),
                pieces.0 == self.board_of(player).bits(piece),
                forall|k: int| 0 <= k < origins@.len() ==> #[trigger] pieces.has(origins@[k].index()),
                forall|i: int|
                    0 <= i < 64 && #[trigger] pieces.has(i) ==> exists|k: int|
                        0 <= k < origins@.len() && origins@[k].index() == i,
                forall|k1: int, k2: int|
                    0 <= k1 < k2 < origins@.len() ==> #[trigger] origins@[k1].index()
                        < #[trigger] origins@[k2].index(),
                moves@.no_duplicates(),
                forall|m: Move| #[trigger] before.contains(m) ==> !in_kind(m, piece, capture),
                forall|m: Move| #[trigger] moves@.contains(m) <==> (before.contains(m) || (m.piece
                    == piece && m.capture == capture && is_step(*self, m) && exists|k: int|
                    0 <= k < j && origins@[k] == m.origin)),
            decreases origins.len() - j,
        {
            let origin = origins[j];
            let targets = if capture {
                piece.attacks(origin, player, own_pieces, opponent_pieces)
            } else {
                piece.moves(origin, player, BitBoard(own_pieces.0 | opponent_pieces.0))
            };
            assert(targets.0 == step_targets(*self, piece, origin.index(), capture));
            let ghost prev = moves@;
            assert forall|m: Move| #[trigger] moves@.contains(m) implies !in_group(
                m,
                piece,
                origin,
                capture,
            ) by {
                if in_group(m, piece, origin, capture) && !before.contains(m) {
                    let k = choose|k: int| 0 <= k < j && origins@[k] == m.origin;
                    assert(origins@[k].index() < origins@[j as int].index());
                }
            }
            push_moves(moves, player, piece, origin, targets, capture);
            proof {
                assert forall|m: Move| #[trigger] moves@.contains(m) <==> (before.contains(m) || (
                m.piece == piece && m.capture == capture && is_step(*self, m) && exists|k: int|
                    0 <= k < j + 1 && origins@[k] == m.origin)) by {
                    assert(pieces.has(origins@[j as int].index()));
                    if m.piece == piece && m.capture == capture && is_step(*self, m) && m.origin
                        == origin {
                        assert(move_onto(player, piece, origin, targets.0, capture, m));
                    }
                    if exists|k: int| 0 <= k < j + 1 && origins@[k] == m.origin {
                        let k = choose|k: int| 0 <= k < j + 1 && origins@[k] == m.origin;
                        assert(pieces.has(origins@[k].index()));
                    }
                }
            }
            j = j + 1;
        }
        proof {
            assert forall|m: Move| #[trigger] moves@.contains(m) <==> (before.contains(m) || (m.piece
                == piece && m.capture == capture && is_step(*self, m))) by {
                if m.piece == piece && m.capture == capture && is_step(*self, m) {
                    assert(pieces.has(m.origin.index()));
                    let k = choose|k: int|
                        0 <= k < origins@.len() && origins@[k].index() == m.origin.index();
                    Square::lemma_index_injective(origins@[k], m.origin);
                }
            }
        }
    }

    /// Adds the en-passant captures onto the state's en-passant square.
    fn push_en_passant(&self, moves: &mut Vec<Move>)
        requires
            old(moves)@.no_duplicates(),
            forall|m: Move| #[trigger] old(moves)@.contains(m) ==> !m.en_passant,
        ensures
            final(moves)@.no_duplicates(),
            forall|m: Move| #[trigger] final(moves)@.contains(m) <==> (old(moves)@.contains(m)
                || is_en_passant_capture(*self, m)),
    {
        let ghost before = moves@;
        if let Some(target) = self.en_passant {
            let player = self.player_turn;
            let pawns = self.player_board(player).pawns;
            let rank: u8 = match player {
                Player::White => 4,
                Player::Black => 3,
            };
            let file = target.file().to_index();
            let ghost mid = moves@;
            let mut right: Option<Move> = None;
            let mut left: Option<Move> = None;
            if file < 7 {
                let origin = Square::new(rank * 8 + file + 1);
                if pawns.is_square_set(origin) {
                    let mv = Move {
                        origin,
                        piece: Piece::Pawn,
                        target,
                        capture: true,
                        en_passant: true,
                        promotion: None,
                        castle: None,
                    };
                    assert(!before.contains(mv));
                    push_move(moves, mv);
                    right = Some(mv);
                }
            }
            let ghost after_right = moves@;
            assert(forall|m: Move| #[trigger] moves@.contains(m) ==> before.contains(m) || (right
                is Some && m == right->Some_0));
            assert(right is Some ==> right->Some_0.origin.index() == rank * 8 + file + 1);
            if file > 0 {
                let origin = Square::new(rank * 8 + file - 1);
                if pawns.is_square_set(origin) {
                    let mv = Move {
                        origin,
                        piece: Piece::Pawn,
                        target,
                        capture: true,
                        en_passant: true,
                        promotion: None,
                        castle: None,
                    };
                    proof {
                        assert(!before.contains(mv));
                        if moves@.contains(mv) {
                            assert(mv == right->Some_0);
                            assert(mv.origin.index() != right->Some_0.origin.index());
                        }
                    }
                    push_move(moves, mv);
                    left = Some(mv);
                }
            }
            proof {
                assert forall|m: Move| #[trigger] moves@.contains(m) <==> (before.contains(m)
                    || is_en_passant_capture(*self, m)) by {
                    if is_en_passant_capture(*self, m) {
                        let o = m.origin.index();
                        if o % 8 == target.index() % 8 + 1 {
                            assert(o == rank * 8 + file + 1);
                            Square::lemma_index_injective(m.origin, right->Some_0.origin);
                        } else {
                            assert(o == rank * 8 + file - 1);
                            Square::lemma_index_injective(m.origin, left->Some_0.origin);
                        }
                    }
                }
            }
        }
    }

    /// Adds the castles that the mover may make.
    #[verifier::rlimit(40)]
    fn push_castles(&self, moves: &mut Vec<Move>)
        requires
            old(moves)@.no_duplicates(),
            forall|m: Move| #[trigger] old(moves)@.contains(m) ==> m.castle is None,
        ensures
            final(moves)@.no_duplicates(),
            forall|m: Move| #[trigger] final(moves)@.contains(m) <==> (old(moves)@.contains(m)
                || is_castle(*self, m)),
    {
        let ghost before = moves@;
        let player = self.player_turn;
        let rights = self.castle_rights(player);
        let occupied = BitBoard(
            self.player_board(player).all().0 | self.player_board(player.other()).all().0,
        );
        let base: u8 = match player {
            Player::White => 0,
            Player::Black => 56,
        };
        let king_square = Square::new(base + 4);
        let mut king_side: Option<Move> = None;
        let mut queen_side: Option<Move> = None;
        if rights.is_king_side_available() && !occupied.is_square_set(Square::new(base + 5))
            && !occupied.is_square_set(Square::new(base + 6)) && !self.is_attacked(king_square, player)
            && !self.is_attacked(Square::new(base + 5), player) && !self.is_attacked(
            Square::new(base + 6),
            player,
        ) {
            let mv = Move {
                piece: Piece::King,
                origin: king_square,
                target: Square::new(base + 6),
                capture: false,
                en_passant: false,
                promotion: None,
                castle: Some(CastleMove::KingSide),
            };
            assert(!before.contains(mv));
            push_move(moves, mv);
            king_side = Some(mv);
        }
        assert(forall|m: Move| #[trigger] moves@.contains(m) ==> before.contains(m) || (king_side
            is Some && m == king_side->Some_0));
        assert(king_side is Some ==> king_side->Some_0.castle == Some(CastleMove::KingSide));
        if rights.is_queen_side_available() && !occupied.is_square_set(Square::new(base + 1))
            && !occupied.is_square_set(Square::new(base + 2)) && !occupied.is_square_set(
            Square::new(base + 3),
        ) && !self.is_attacked(king_square, player) && !self.is_attacked(
            Square::new(base + 3),
            player,
        ) && !self.is_attacked(Square::new(base + 2), player) {
            let mv = Move {
                piece: Piece::King,
                origin: king_square,
                target: Square::new(base + 2),
                capture: false,
                en_passant: false,
                promotion: None,
                castle: Some(CastleMove::QueenSide),
            };
            proof {
                assert(!before.contains(mv));
                if moves@.contains(mv) {
                    assert(mv == king_side->Some_0);
                }
            }
            push_move(moves, mv);
            queen_side = Some(mv);
        }
        proof {
            assert forall|m: Move| #[trigger] moves@.contains(m) <==> (before.contains(m) || is_castle(
                *self,
                m,
            )) by {
                if is_castle(*self, m) {
                    if m.castle == Some(CastleMove::KingSide) {
                        Square::lemma_index_injective(m.origin, king_side->Some_0.origin);
                        Square::lemma_index_injective(m.target, king_side->Some_0.target);
                    } else {
                        Square::lemma_index_injective(m.origin, queen_side->Some_0.origin);
                        Square::lemma_index_injective(m.target, queen_side->Some_0.target);
                    }
                }
            }
        }
    }

    /// Returns the candidate moves of the player to move: the moves that follow
    /// the movement rules, whether or not they leave the mover in check.
    pub fn candidate_moves(&self) -> (r: Vec<Move>)
        ensures
            r@.no_duplicates(),
            forall|m: Move| #[trigger] r@.contains(m) <==> is_candidate(*self, m),
    {
        let mut moves: Vec<Move> = Vec::new();
        self.push_piece_moves(&mut moves, Piece::Rook, true);
        self.push_piece_moves(&mut moves, Piece::Knight, true);
        self.push_piece_moves(&mut moves, Piece::Bishop, true);
        self.push_piece_moves(&mut moves, Piece::Queen, true);
        self.push_piece_moves(&mut moves, Piece::King, true);
        self.push_piece_moves(&mut moves, Piece::Pawn, true);
        self.push_piece_moves(&mut moves, Piece::Rook, false);
        self.push_piece_moves(&mut moves, Piece::Knight, false);
        self.push_piece_moves(&mut moves, Piece::Bishop, false);
        self.push_piece_moves(&mut moves, Piece::Queen, false);
        self.push_piece_moves(&mut moves, Piece::King, false);
        self.push_piece_moves(&mut moves, Piece::Pawn, false);
        self.push_en_passant(&mut moves);
        self.push_castles(&mut moves);
        proof {
            assert forall|m: Move| #[trigger] moves@.contains(m) <==> is_candidate(*self, m) by {
                if is_step(*self, m) {
                    assert(m.piece == Piece::Rook || m.piece == Piece::Knight || m.piece
                        == Piece::Bishop || m.piece == Piece::Queen || m.piece == Piece::King
                        || m.piece == Piece::Pawn);
                }
            }
        }
        moves
    }

    /// Returns the legal moves of the player to move: the candidate moves after
    /// which the mover's own king is not in check.
    pub fn legal_moves(&self) -> (r: Vec<Move>)
        requires
            self.counters_fit(),
        ensures
            r@.no_duplicates(),
            forall|m: Move| #[trigger] r@.contains(m) <==> is_legal(*self, m),
            forall|i: int|
                0 <= i < r@.len() ==> !in_check(apply_spec(*self, #[trigger] r@[i]), self.player_turn),
    {
        let candidates = self.candidate_moves();
        let mut moves: Vec<Move> = Vec::new();
        let mut i: usize = 0;
        while i < candidates.len()
            invariant
                i <= candidates@.len(),
                self.counters_fit(),
                forall|m: Move| #[trigger] candidates@.contains(m) <==> is_candidate(*self, m),
                candidates@.no_duplicates(),
                moves@.no_duplicates(),
                forall|m: Move| #[trigger] moves@.contains(m) <==> (is_legal(*self, m) && exists|k: int|
                    0 <= k < i && candidates@[k] == m),
            decreases candidates.len() - i,
        {
            let mv = candidates[i];
            assert(candidates@.contains(mv));
            let ghost prev = moves@;
            if !self.apply_move(&mv).is_check(self.player_turn) {
                proof {
                    if moves@.contains(mv) {
                        let k = choose|k: int| 0 <= k < i && candidates@[k] == mv;
                        assert(candidates@[k] == candidates@[i as int]);
                    }
                }
                push_move(&mut moves, mv);
            }
            proof {
                assert forall|m: Move| #[trigger] moves@.contains(m) <==> (is_legal(*self, m)
                    && exists|k: int| 0 <= k < i + 1 && candidates@[k] == m) by {
                    if exists|k: int| 0 <= k < i + 1 && candidates@[k] == m {
                        let k = choose|k: int| 0 <= k < i + 1 && candidates@[k] == m;
                        if k < i {
                            assert(exists|k: int| 0 <= k < i && candidates@[k] == m);
                        }
                    }
                }
            }
            i = i + 1;
        }
        proof {
            assert forall|m: Move| #[trigger] moves@.contains(m) <==> is_legal(*self, m) by {
                if is_legal(*self, m) {
                    assert(candidates@.contains(m));
                    let k = choose|k: int| 0 <= k < candidates@.len() && candidates@[k] == m;
                }
            }
            assert forall|i: int| 0 <= i < moves@.len() implies !in_check(
                apply_spec(*self, #[trigger] moves@[i]),
                self.player_turn,
            ) by {
                assert(moves@.contains(moves@[i]));
            }
        }
        moves
    }
}

} // verus!
