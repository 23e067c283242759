//! Generation of semi-legal moves: moves that respect the positions of the
//! other pieces, but not whether they leave the mover's own king in check.

use vstd::prelude::*;

use crate::board::bitboard::{
    bit, mirror_d_index, mirror_d_spec, mirror_h_index, mirror_h_spec, single, BitBoard,
};
use crate::board::piece::Piece;
use crate::board::player::Player;
use crate::board::square::{diagonal_bits, Square};
use crate::rules::basic_moves::{
    self, file_bits, king_bits, knight_bits, pawn_attack_bits, pawn_push_bits,
};
use crate::rules::ray_geometry::{bishop_sees, lemma_bishop_reach, lemma_rook_reach, rook_sees};

verus! {

/// The squares reached from the square `origin` (a single bit) along the part
/// of the line `line` above it, up to and including the first square of
/// `blockers` met: subtracting twice the origin from the blockers on the line
/// borrows through exactly those squares.
pub open spec fn slide_up(line: u64, origin: u64, blockers: u64) -> u64 {
    (((blockers & line).wrapping_sub(origin.wrapping_mul(2))) ^ blockers) & line
}

/// The squares a rook on square `i` reaches upwards along its file.
pub open spec fn rook_up(i: int, blockers: u64) -> u64 {
    slide_up(file_bits(i % 8), single(i), blockers)
}

/// The squares a rook on square `i` reaches in its four directions, each up to
/// and including the first blocker: the upward slide, applied to the board
/// mirrored so that each other direction points upwards, and mirrored back.
pub open spec fn rook_reach(i: int, b: u64) -> u64 {
    let mh = mirror_h_index(i);
    let md = mirror_d_index(i);
    rook_up(i, b) | mirror_h_spec(rook_up(mh, mirror_h_spec(b))) | mirror_d_spec(
        rook_up(md, mirror_d_spec(b)),
    ) | mirror_d_spec(mirror_h_spec(rook_up(mirror_h_index(md), mirror_h_spec(mirror_d_spec(b)))))
}

/// The squares a bishop on square `i` reaches up its A1-H8 diagonal.
pub open spec fn bishop_up(i: int, blockers: u64) -> u64 {
    slide_up(diagonal_bits(i % 8, i / 8), single(i), blockers)
}

/// The squares a bishop on square `i` reaches in its four directions, each up
/// to and including the first blocker, by the same mirroring as for the rook.
pub open spec fn bishop_reach(i: int, b: u64) -> u64 {
    let back = mirror_h_index(mirror_d_index(mirror_h_index(i)));
    let anti = mirror_h_index(i);
    let back_anti = mirror_h_index(mirror_d_index(i));
    bishop_up(i, b) | mirror_h_spec(
        mirror_d_spec(mirror_h_spec(bishop_up(back, mirror_h_spec(mirror_d_spec(mirror_h_spec(b)))))),
    ) | mirror_h_spec(bishop_up(anti, mirror_h_spec(b))) | mirror_d_spec(
        mirror_h_spec(bishop_up(back_anti, mirror_h_spec(mirror_d_spec(b)))),
    )
}

/// The squares that block a pawn of `player`, given the squares occupied by
/// other pieces: those squares and, for the double step, the squares just
/// beyond them.
pub open spec fn pawn_blocked(player: Player, blockers: u64) -> u64 {
    match player {
        Player::White => blockers | blockers << 8u64,
        Player::Black => blockers | blockers >> 8u64,
    }
}

/// The quiet moves of `piece` of `player` from square `i`, given the occupied squares.
pub open spec fn moves_spec(piece: Piece, i: int, player: Player, blockers: u64) -> u64 {
    match piece {
        Piece::Pawn => pawn_push_bits(i, player) & !pawn_blocked(player, blockers & !single(i)),
        Piece::Rook => rook_reach(i, blockers) & !blockers,
        Piece::Knight => knight_bits(single(i)) & !blockers,
        Piece::Bishop => bishop_reach(i, blockers) & !blockers,
        Piece::Queen => (bishop_reach(i, blockers) & !blockers) | (rook_reach(i, blockers)
            & !blockers),
        Piece::King => king_bits(single(i)) & !blockers,
    }
}

/// The captures of `piece` of `player` from square `i`, given the squares of
/// the player's own pieces and of the opponent's.
pub open spec fn attacks_spec(piece: Piece, i: int, player: Player, own: u64, opp: u64) -> u64 {
    match piece {
        Piece::Pawn => pawn_attack_bits(i, player) & opp,
        Piece::Rook => rook_reach(i, own | opp) & opp,
        Piece::Knight => knight_bits(single(i)) & opp,
        Piece::Bishop => bishop_reach(i, own | opp) & opp,
        Piece::Queen => (bishop_reach(i, own | opp) & opp) | (rook_reach(i, own | opp) & opp),
        Piece::King => king_bits(single(i)) & opp,
    }
}

impl Piece {
    /// Returns the possible moves of the piece.
    pub fn moves(&self, square: Square, player: Player, blockers: BitBoard) -> (r: BitBoard)
        ensures
            r.0 == moves_spec(*self, square.index(), player, blockers.0),
    {
        match *self {
            Piece::Pawn => pawn_moves(square, player, blockers),
            Piece::Rook => rook_moves(square, blockers),
            Piece::Knight => knight_moves(square, blockers),
            Piece::Bishop => bishop_moves(square, blockers),
            Piece::Queen => queen_moves(square, blockers),
            Piece::King => king_moves(square, blockers),
        }
    }

    /// Returns the possible attacks of the piece.
    pub fn attacks(
        &self,
        square: Square,
        player: Player,
        own_pieces: BitBoard,
        opponent_pieces: BitBoard,
    ) -> (r: BitBoard)
        ensures
            r.0 == attacks_spec(*self, square.index(), player, own_pieces.0, opponent_pieces.0),
    {
        match *self {
            Piece::Pawn => pawn_attacks(square, player, opponent_pieces),
            Piece::Rook => rook_attacks(square, own_pieces, opponent_pieces),
            Piece::Knight => knight_attacks(square, opponent_pieces),
            Piece::Bishop => bishop_attacks(square, own_pieces, opponent_pieces),
            Piece::Queen => queen_attacks(square, own_pieces, opponent_pieces),
            Piece::King => king_attacks(square, opponent_pieces),
        }
    }
}

/// Returns the moves a given pawn can make: one square forward if it is
/// empty, two from the home rank if both squares are empty. The pawn's own
/// square does not block it.
pub fn pawn_moves(square: Square, player: Player, blockers: BitBoard) -> (r: BitBoard)
    ensures
        r.0 == moves_spec(Piece::Pawn, square.index(), player, blockers.0),
{
    let b = blockers.0 & !square.to_bitboard().0;
    let double_blockers = match player {
        Player::White => b | b << 8u64,
        Player::Black => b | b >> 8u64,
    };
    BitBoard(basic_moves::pawn_moves(square, player).0 & !double_blockers)
}

/// Returns the attacks a given pawn can make.
pub fn pawn_attacks(square: Square, player: Player, opponent_pieces: BitBoard) -> (r: BitBoard)
    ensures
        r.0 == pawn_attack_bits(square.index(), player) & opponent_pieces.0,
{
    BitBoard(basic_moves::pawn_attacks(square, player).0 & opponent_pieces.0)
}

/// Returns the moves a given knight can make.
pub fn knight_moves(square: Square, blockers: BitBoard) -> (r: BitBoard)
    ensures
        r.0 == knight_bits(single(square.index())) & !blockers.0,
{
    BitBoard(basic_moves::knight(square).0 & !blockers.0)
}

/// Returns the attacks a given knight can make.
pub fn knight_attacks(square: Square, opponent_pieces: BitBoard) -> (r: BitBoard)
    ensures
        r.0 == knight_bits(single(square.index())) & opponent_pieces.0,
{
    BitBoard(basic_moves::knight(square).0 & opponent_pieces.0)
}

/// Returns the moves a given king can make.
pub fn king_moves(square: Square, blockers: BitBoard) -> (r: BitBoard)
    ensures
        r.0 == king_bits(single(square.index())) & !blockers.0,
{
    BitBoard(basic_moves::king(square).0 & !blockers.0)
}

/// Returns the attacks a given king can make.
pub fn king_attacks(square: Square, opponent_pieces: BitBoard) -> (r: BitBoard)
    ensures
        r.0 == king_bits(single(square.index())) & opponent_pieces.0,
{
    BitBoard(basic_moves::king(square).0 & opponent_pieces.0)
}

/// The slide up the given line from the given square.
fn slide(line: u64, square: Square, blockers: u64) -> (r: u64)
    ensures
        r == slide_up(line, single(square.index()), blockers),
{
    let origin = square.to_bitboard().0;
    let potential_blockers = blockers & line;
    let difference = potential_blockers.wrapping_sub(origin.wrapping_mul(2));
    let changed = difference ^ blockers;
    changed & line
}

/// The squares a rook reaches upwards along its file.
fn rook_forward(square: Square, blockers: u64) -> (r: u64)
    ensures
        r == rook_up(square.index(), blockers),
{
    slide(square.file().to_bitboard().0, square, blockers)
}

/// Returns the combination of moves and captures a rook can make, assuming the
/// blockers can all be captured.
pub fn rook_all_moves(square: Square, blockers: BitBoard) -> (r: BitBoard)
    ensures
        r.0 == rook_reach(square.index(), blockers.0),
        forall|j: int| 0 <= j < 64 ==> #[trigger] r.has(j) == rook_sees(square.index(), j, blockers.0),
{
    proof {
        use_type_invariant(square);
        assert forall|j: int| 0 <= j < 64 implies #[trigger] bit(rook_reach(square.index(), blockers.0), j)
            == rook_sees(square.index(), j, blockers.0) by {
            lemma_rook_reach(square.index(), j, blockers.0);
        }
    }
    let up = rook_forward(square, blockers.0);
    let down = BitBoard(
        rook_forward(square.mirror_horizontal(), blockers.mirror_horizontal().0),
    ).mirror_horizontal();
    let left = BitBoard(rook_forward(square.mirror_diag(), blockers.mirror_diag().0)).mirror_diag();
    let right = BitBoard(
        rook_forward(
            square.mirror_diag().mirror_horizontal(),
            blockers.mirror_diag().mirror_horizontal().0,
        ),
    ).mirror_horizontal().mirror_diag();
    BitBoard(up | down.0 | left.0 | right.0)
}

/// Returns the moves a given rook can make.
pub fn rook_moves(square: Square, blockers: BitBoard) -> (r: BitBoard)
    ensures
        r.0 == rook_reach(square.index(), blockers.0) & !blockers.0,
{
    BitBoard(rook_all_moves(square, blockers).0 & !blockers.0)
}

/// Returns the attacks a given rook can make.
pub fn rook_attacks(square: Square, own_pieces: BitBoard, opponent_pieces: BitBoard) -> (r:
    BitBoard)
    ensures
        r.0 == rook_reach(square.index(), own_pieces.0 | opponent_pieces.0) & opponent_pieces.0,
{
    BitBoard(rook_all_moves(square, BitBoard(own_pieces.0 | opponent_pieces.0)).0 & opponent_pieces.0)
}

/// The squares a bishop reaches up its A1-H8 diagonal.
fn bishop_forward(square: Square, blockers: u64) -> (r: u64)
    ensures
        r == bishop_up(square.index(), blockers),
{
    slide(square.diagonal().0, square, blockers)
}

/// Returns the combination of moves and captures a bishop can make, assuming
/// the blockers can all be captured.
pub fn bishop_all_moves(square: Square, blockers: BitBoard) -> (r: BitBoard)
    ensures
        r.0 == bishop_reach(square.index(), blockers.0),
        forall|j: int| 0 <= j < 64 ==> #[trigger] r.has(j) == bishop_sees(square.index(), j, blockers.0),
{
    proof {
        use_type_invariant(square);
        assert forall|j: int| 0 <= j < 64 implies #[trigger] bit(bishop_reach(square.index(), blockers.0), j)
            == bishop_sees(square.index(), j, blockers.0) by {
            lemma_bishop_reach(square.index(), j, blockers.0);
        }
    }
    let forward_diag = bishop_forward(square, blockers.0);
    let backward_diag = BitBoard(
        bishop_forward(
            square.mirror_horizontal().mirror_diag().mirror_horizontal(),
            blockers.mirror_horizontal().mirror_diag().mirror_horizontal().0,
        ),
    ).mirror_horizontal().mirror_diag().mirror_horizontal();
    let forward_antidiag = BitBoard(
        bishop_forward(square.mirror_horizontal(), blockers.mirror_horizontal().0),
    ).mirror_horizontal();
    let backward_antidiag = BitBoard(
        bishop_forward(
            square.mirror_diag().mirror_horizontal(),
            blockers.mirror_diag().mirror_horizontal().0,
        ),
    ).mirror_horizontal().mirror_diag();
    BitBoard(forward_diag | backward_diag.0 | forward_antidiag.0 | backward_antidiag.0)
}

/// Returns the moves a given bishop can make.
pub fn bishop_moves(square: Square, blockers: BitBoard) -> (r: BitBoard)
    ensures
        r.0 == bishop_reach(square.index(), blockers.0) & !blockers.0,
{
    BitBoard(bishop_all_moves(square, blockers).0 & !blockers.0)
}

/// Returns the attacks a given bishop can make.
pub fn bishop_attacks(square: Square, own_pieces: BitBoard, opponent_pieces: BitBoard) -> (r:
    BitBoard)
    ensures
        r.0 == bishop_reach(square.index(), own_pieces.0 | opponent_pieces.0) & opponent_pieces.0,
{
    BitBoard(
        bishop_all_moves(square, BitBoard(own_pieces.0 | opponent_pieces.0)).0 & opponent_pieces.0,
    )
}

/// Returns the moves a given queen can make.
pub fn queen_moves(square: Square, blockers: BitBoard) -> (r: BitBoard)
    ensures
        r.0 == (bishop_reach(square.index(), blockers.0) & !blockers.0) | (rook_reach(
            square.index(),
            blockers.0,
        ) & !blockers.0),
{
    BitBoard(bishop_moves(square, blockers).0 | rook_moves(square, blockers).0)
}

/// Returns the attacks a given queen can make.
pub fn queen_attacks(square: Square, own_pieces: BitBoard, opponent_pieces: BitBoard) -> (r:
    BitBoard)
    ensures
        r.0 == (bishop_reach(square.index(), own_pieces.0 | opponent_pieces.0)
            & opponent_pieces.0) | (rook_reach(square.index(), own_pieces.0 | opponent_pieces.0)
            & opponent_pieces.0),
{
    BitBoard(
        bishop_attacks(square, own_pieces, opponent_pieces).0 | rook_attacks(
            square,
            own_pieces,
            opponent_pieces,
        ).0,
    )
}

} // verus!
