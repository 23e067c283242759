//! The movement of chess pieces on an empty board.

use vstd::prelude::*;

use crate::board::bitboard::{bit, single, BitBoard};
use crate::board::file::{a_file_bits, File};
use crate::board::player::Player;
use crate::board::square::{
    antidiagonal_bits, diagonal_bits, lemma_antidiagonal_bit, lemma_diagonal_bit, Square,
};

verus! {

/// The squares of the file numbered `f`.
pub open spec fn file_bits(f: int) -> u64 {
    a_file_bits() << (f as u64)
}

/// The squares of the rank numbered `r`.
pub open spec fn rank_bits(r: int) -> u64 {
    0xFFu64 << ((8 * r) as u64)
}

/// The squares a pawn of `player` on square `i` may advance to on an empty
/// board: one square forward, or two from its home rank.
pub open spec fn pawn_push_bits(i: int, player: Player) -> u64 {
    match player {
        Player::White => if i / 8 == 1 {
            single(i + 8) | single(i + 16)
        } else if i / 8 < 7 {
            single(i + 8)
        } else {
            0
        },
        Player::Black => if i / 8 == 6 {
            single(i - 8) | single(i - 16)
        } else if i / 8 > 0 {
            single(i - 8)
        } else {
            0
        },
    }
}

/// The squares a pawn of `player` on square `i` attacks: the squares
/// diagonally forward of it.
pub open spec fn pawn_attack_bits(i: int, player: Player) -> u64 {
    match player {
        Player::White => if i / 8 < 7 {
            (if i % 8 > 0 {
                single(i + 7)
            } else {
                0
            }) | (if i % 8 < 7 {
                single(i + 9)
            } else {
                0
            })
        } else {
            0
        },
        Player::Black => if i / 8 > 0 {
            (if i % 8 > 0 {
                single(i - 9)
            } else {
                0
            }) | (if i % 8 < 7 {
                single(i - 7)
            } else {
                0
            })
        } else {
            0
        },
    }
}

/// All squares but those of the A file.
pub open spec fn not_a_file() -> u64 {
    !0x0101010101010101u64
}

/// All squares but those of the A and B files.
pub open spec fn not_ab_files() -> u64 {
    !0x0303030303030303u64
}

/// All squares but those of the H file.
pub open spec fn not_h_file() -> u64 {
    !0x8080808080808080u64
}

/// All squares but those of the G and H files.
pub open spec fn not_gh_files() -> u64 {
    !0xC0C0C0C0C0C0C0C0u64
}

/// The knight jumps from the squares of `b`: the eight shifts by 6, 10, 15 and
/// 17 squares, each masked against the files that a jump across the board
/// edge would land on.
pub open spec fn knight_bits(b: u64) -> u64 {
    ((b << 17u64) & not_a_file()) | ((b << 10u64) & not_ab_files()) | ((b >> 6u64) & not_ab_files()) | ((b
        >> 15u64) & not_a_file()) | ((b >> 17u64) & not_h_file()) | ((b >> 10u64) & not_gh_files()) | ((b << 6u64)
        & not_gh_files()) | ((b << 15u64) & not_h_file())
}

/// The king steps from the squares of `b`: the eight shifts by 1, 7, 8 and 9
/// squares, masked against the file that a step across the board edge would
/// land on.
pub open spec fn king_bits(b: u64) -> u64 {
    ((b << 1u64) & not_a_file()) | ((b << 7u64) & not_h_file()) | (b << 8u64) | ((b << 9u64) & not_a_file()) | ((b
        >> 1u64) & not_h_file()) | ((b >> 7u64) & not_a_file()) | (b >> 8u64) | ((b >> 9u64) & not_h_file())
}

/// The rank and file through square `i`, without `i` itself.
pub open spec fn rook_lines(i: int) -> u64 {
    rank_bits(i / 8) ^ file_bits(i % 8)
}

/// The diagonal and anti-diagonal through square `i`, without `i` itself.
pub open spec fn bishop_lines(i: int) -> u64 {
    diagonal_bits(i % 8, i / 8) ^ antidiagonal_bits(i % 8, i / 8)
}

/// Returns the pawn moves of the given player from the given square on an empty board.
pub fn pawn_moves(square: Square, player: Player) -> (r: BitBoard)
    ensures
        r.0 == pawn_push_bits(square.index(), player),
{
    let i = square.to_index() as u64;
    let rank = i / 8;
    match player {
        Player::White => if rank == 1 {
            BitBoard::new((1u64 << (i + 8)) | (1u64 << (i + 16)))
        } else if rank < 7 {
            BitBoard::new(1u64 << (i + 8))
        } else {
            BitBoard::new(0)
        },
        Player::Black => if rank == 6 {
            BitBoard::new((1u64 << (i - 8)) | (1u64 << (i - 16)))
        } else if rank > 0 {
            BitBoard::new(1u64 << (i - 8))
        } else {
            BitBoard::new(0)
        },
    }
}

/// Returns the pawn attacks of the given player from the given square.
pub fn pawn_attacks(square: Square, player: Player) -> (r: BitBoard)
    ensures
        r.0 == pawn_attack_bits(square.index(), player),
{
    let i = square.to_index() as u64;
    let rank = i / 8;
    let file = i % 8;
    match player {
        Player::White => if rank < 7 {
            let left: u64 = if file > 0 {
                1u64 << (i + 7)
            } else {
                0
            };
            let right: u64 = if file < 7 {
                1u64 << (i + 9)
            } else {
                0
            };
            BitBoard::new(left | right)
        } else {
            BitBoard::new(0)
        },
        Player::Black => if rank > 0 {
            let left: u64 = if file > 0 {
                1u64 << (i - 9)
            } else {
                0
            };
            let right: u64 = if file < 7 {
                1u64 << (i - 7)
            } else {
                0
            };
            BitBoard::new(left | right)
        } else {
            BitBoard::new(0)
        },
    }
}

/// Returns the rook moves from the given square on an empty board.
pub fn rook(square: Square) -> (r: BitBoard)
    ensures
        r.0 == rook_lines(square.index()),
        forall|j: int|
            0 <= j < 64 ==> #[trigger] r.has(j) == ((j / 8 == square.index() / 8) != (j % 8
                == square.index() % 8)),
{
    proof {
        use_type_invariant(square);
        let i = square.index();
        assert forall|j: int| 0 <= j < 64 implies #[trigger] bit(rook_lines(i), j) == ((j / 8 == i / 8)
            != (j % 8 == i % 8)) by {
            lemma_line_bits(i % 8, i / 8, j);
            lemma_xor_bit(rank_bits(i / 8), file_bits(i % 8), j);
        }
    }
    BitBoard::new(square.rank().to_bitboard().0 ^ square.file().to_bitboard().0)
}

/// Returns the bishop moves from the given square on an empty board.
pub fn bishop(square: Square) -> (r: BitBoard)
    ensures
        r.0 == bishop_lines(square.index()),
        forall|j: int|
            0 <= j < 64 ==> #[trigger] r.has(j) == ((j % 8 - j / 8 == square.index() % 8
                - square.index() / 8) != (j % 8 + j / 8 == square.index() % 8 + square.index() / 8)),
{
    proof {
        use_type_invariant(square);
        let i = square.index();
        assert forall|j: int| 0 <= j < 64 implies #[trigger] bit(bishop_lines(i), j) == ((j % 8 - j / 8
            == i % 8 - i / 8) != (j % 8 + j / 8 == i % 8 + i / 8)) by {
            lemma_diagonal_bit(i % 8, i / 8, j);
            lemma_antidiagonal_bit(i % 8, i / 8, j);
            lemma_xor_bit(diagonal_bits(i % 8, i / 8), antidiagonal_bits(i % 8, i / 8), j);
        }
    }
    BitBoard::new(square.diagonal().0 ^ square.antidiagonal().0)
}

/// Returns the queen moves from the given square on an empty board.
pub fn queen(square: Square) -> (r: BitBoard)
    ensures
        r.0 == rook_lines(square.index()) | bishop_lines(square.index()),
{
    BitBoard::new(rook(square).0 | bishop(square).0)
}

/// Returns the knight moves from the given square on an empty board.
pub fn knight(square: Square) -> (r: BitBoard)
    ensures
        r.0 == knight_bits(single(square.index())),
        forall|j: int| 0 <= j < 64 ==> #[trigger] r.has(j) == knight_jump(square.index(), j),
{
    proof {
        use_type_invariant(square);
        assert forall|j: int| 0 <= j < 64 implies #[trigger] bit(knight_bits(single(square.index())), j)
            == knight_jump(square.index(), j) by {
            lemma_knight_bits(square.index(), j);
        }
    }
    let not_a: u64 = !File::A.to_bitboard().0;
    let not_ab: u64 = !(File::A.to_bitboard().0 | File::B.to_bitboard().0);
    let not_h: u64 = !File::H.to_bitboard().0;
    let not_gh: u64 = !(File::H.to_bitboard().0 | File::G.to_bitboard().0);
    assert(not_ab == !0x0303030303030303u64 && not_gh == !0xC0C0C0C0C0C0C0C0u64) by (bit_vector)
        requires
            not_ab == !((0x0101010101010101u64 << 0u64) | (0x0101010101010101u64 << 1u64)),
            not_gh == !((0x0101010101010101u64 << 7u64) | (0x0101010101010101u64 << 6u64)),
    ;
    assert(not_a == !0x0101010101010101u64 && not_h == !0x8080808080808080u64) by (bit_vector)
        requires
            not_a == !(0x0101010101010101u64 << 0u64),
            not_h == !(0x0101010101010101u64 << 7u64),
    ;
    let b = square.to_bitboard().0;
    let mut result: u64 = 0;
    result = result | (b << 17u64) & not_a;
    result = result | (b << 10u64) & not_ab;
    result = result | (b >> 6u64) & not_ab;
    result = result | (b >> 15u64) & not_a;
    result = result | (b >> 17u64) & not_h;
    result = result | (b >> 10u64) & not_gh;
    result = result | (b << 6u64) & not_gh;
    result = result | (b << 15u64) & not_h;
    assert(result == ((b << 17u64) & not_a) | ((b << 10u64) & not_ab) | ((b >> 6u64) & not_ab) | ((
    b >> 15u64) & not_a) | ((b >> 17u64) & not_h) | ((b >> 10u64) & not_gh) | ((b << 6u64)
        & not_gh) | ((b << 15u64) & not_h)) by (bit_vector)
        requires
            result == 0u64 | (b << 17u64) & not_a | (b << 10u64) & not_ab | (b >> 6u64) & not_ab | (b
                >> 15u64) & not_a | (b >> 17u64) & not_h | (b >> 10u64) & not_gh | (b << 6u64)
                & not_gh | (b << 15u64) & not_h,
    ;
    BitBoard::new(result)
}

/// Returns the king moves from the given square on an empty board.
pub fn king(square: Square) -> (r: BitBoard)
    ensures
        r.0 == king_bits(single(square.index())),
        forall|j: int| 0 <= j < 64 ==> #[trigger] r.has(j) == king_step(square.index(), j),
{
    proof {
        use_type_invariant(square);
        assert forall|j: int| 0 <= j < 64 implies #[trigger] bit(king_bits(single(square.index())), j)
            == king_step(square.index(), j) by {
            lemma_king_bits(square.index(), j);
        }
    }
    let not_a: u64 = !File::A.to_bitboard().0;
    let not_h: u64 = !File::H.to_bitboard().0;
    assert(not_a == !0x0101010101010101u64 && not_h == !0x8080808080808080u64) by (bit_vector)
        requires
            not_a == !(0x0101010101010101u64 << 0u64),
            not_h == !(0x0101010101010101u64 << 7u64),
    ;
    let b = square.to_bitboard().0;
    let mut result: u64 = 0;
    result = result | (b << 1u64) & not_a;
    result = result | (b << 7u64) & not_h;
    result = result | (b << 8u64);
    result = result | (b << 9u64) & not_a;
    result = result | (b >> 1u64) & not_h;
    result = result | (b >> 7u64) & not_a;
    result = result | (b >> 8u64);
    result = result | (b >> 9u64) & not_h;
    assert(result == ((b << 1u64) & not_a) | ((b << 7u64) & not_h) | (b << 8u64) | ((b << 9u64)
        & not_a) | ((b >> 1u64) & not_h) | ((b >> 7u64) & not_a) | (b >> 8u64) | ((b >> 9u64)
        & not_h)) by (bit_vector)
        requires
            result == 0u64 | (b << 1u64) & not_a | (b << 7u64) & not_h | (b << 8u64) | (b << 9u64)
                & not_a | (b >> 1u64) & not_h | (b >> 7u64) & not_a | (b >> 8u64) | (b >> 9u64)
                & not_h,
    ;
    BitBoard::new(result)
}

/// Whether squares `i` and `j` are a knight's jump apart: one file and two
/// ranks, or two files and one rank.
pub open spec fn knight_jump(i: int, j: int) -> bool {
    let df = i % 8 - j % 8;
    let dr = i / 8 - j / 8;
    ((df == 1 || df == -1) && (dr == 2 || dr == -2)) || ((df == 2 || df == -2) && (dr == 1 || dr
        == -1))
}

/// Whether squares `i` and `j` are a king's step apart: at most one file and
/// one rank, and not the same square.
pub open spec fn king_step(i: int, j: int) -> bool {
    let df = i % 8 - j % 8;
    let dr = i / 8 - j / 8;
    -1 <= df <= 1 && -1 <= dr <= 1 && i != j
}

/// The knight jumps from a square are the squares a knight's jump away.
pub proof fn lemma_knight_bits(i: int, j: int)
    requires
        0 <= i < 64,
        0 <= j < 64,
    ensures
        bit(knight_bits(single(i)), j) == knight_jump(i, j),
{
    let u = i as u64;
    let v = j as u64;
    let fi = u & 7;
    let ri = u >> 3;
    let fj = v & 7;
    let rj = v >> 3;
    assert(fi == u % 8 && ri == u / 8 && fj == v % 8 && rj == v / 8) by (bit_vector)
        requires
            u < 64,
            v < 64,
            fi == u & 7,
            ri == u >> 3,
            fj == v & 7,
            rj == v >> 3,
    ;
    let b = 1u64 << u;
    assert((((knight_bits(b) >> v) & 1) == 1) == (((fi + 1 == fj || fj + 1 == fi) && (ri + 2 == rj
        || rj + 2 == ri)) || ((fi + 2 == fj || fj + 2 == fi) && (ri + 1 == rj || rj + 1 == ri))))
        by (bit_vector)
        requires
            u < 64,
            v < 64,
            b == 1u64 << u,
            fi == u & 7,
            ri == u >> 3,
            fj == v & 7,
            rj == v >> 3,
    ;
}

/// The king steps from a square are the squares a king's step away.
pub proof fn lemma_king_bits(i: int, j: int)
    requires
        0 <= i < 64,
        0 <= j < 64,
    ensures
        bit(king_bits(single(i)), j) == king_step(i, j),
{
    let u = i as u64;
    let v = j as u64;
    let fi = u & 7;
    let ri = u >> 3;
    let fj = v & 7;
    let rj = v >> 3;
    assert(fi == u % 8 && ri == u / 8 && fj == v % 8 && rj == v / 8) by (bit_vector)
        requires
            u < 64,
            v < 64,
            fi == u & 7,
            ri == u >> 3,
            fj == v & 7,
            rj == v >> 3,
    ;
    let b = 1u64 << u;
    assert((((king_bits(b) >> v) & 1) == 1) == ((fi == fj || fi + 1 == fj || fj + 1 == fi) && (ri
        == rj || ri + 1 == rj || rj + 1 == ri) && u != v)) by (bit_vector)
        requires
            u < 64,
            v < 64,
            b == 1u64 << u,
            fi == u & 7,
            ri == u >> 3,
            fj == v & 7,
            rj == v >> 3,
    ;
}

/// A bit of an exclusive disjunction of words is set where it is set in exactly one.
proof fn lemma_xor_bit(x: u64, y: u64, k: int)
    requires
        0 <= k < 64,
    ensures
        bit(x ^ y, k) == (bit(x, k) != bit(y, k)),
{
    let u = k as u64;
    assert((((x ^ y) >> u) & 1 == 1) == (((x >> u) & 1 == 1) != ((y >> u) & 1 == 1))) by (bit_vector)
        requires
            u < 64,
    ;
}

/// The squares of rank `r` and of file `f`.
proof fn lemma_line_bits(f: int, r: int, j: int)
    requires
        0 <= f < 8,
        0 <= r < 8,
        0 <= j < 64,
    ensures
        bit(rank_bits(r), j) == (j / 8 == r),
        bit(file_bits(f), j) == (j % 8 == f),
{
    let g = f as u64;
    let h = r as u64;
    let v = j as u64;
    assert((((0x0101010101010101u64 << g) >> v) & 1 == 1) == (v % 8 == g)) by (bit_vector)
        requires
            g < 8,
            v < 64,
    ;
    assert(((8 * r) as u64) == 8 * h);
    assert((((0xFFu64 << (8 * h)) >> v) & 1 == 1) == (v / 8 == h)) by (bit_vector)
        requires
            h < 8,
            v < 64,
    ;
}

} // verus!
