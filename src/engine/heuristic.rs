//! The heuristic score of a game state.

use vstd::arithmetic::power2::pow2;
use vstd::prelude::*;

use crate::board::bitboard::{bit, mirror_h_spec, popcount, BitBoard};
use crate::board::file::File;
use crate::rules::basic_moves::file_bits;
use crate::rules::game_state::GameState;

verus! {

/// The largest size of a value of a mask that keeps every sum of 64 of them in an `i32`.
pub open spec fn mask_bound() -> int {
    0x100_0000
}

/// The values of a mask as integers.
pub open spec fn widen(mask: Seq<i32>) -> Seq<int> {
    mask.map_values(|v: i32| v as int)
}

/// Whether every value of the mask is within `mask_bound`.
pub open spec fn mask_fits(mask: Seq<i32>) -> bool {
    mask.len() == 64 && forall|i: int| 0 <= i < 64 ==> -mask_bound() <= #[trigger] mask[i] <= mask_bound()
}

/// The sum of `mask[i]` over the squares `i` below `n` that are set in `x`.
pub open spec fn mask_sum(x: u64, mask: Seq<int>, n: int) -> int
    decreases n,
{
    if n <= 0 {
        0
    } else {
        mask_sum(x, mask, n - 1) + if bit(x, n - 1) {
            mask[n - 1]
        } else {
            0
        }
    }
}

/// Whether the first 64 values of `mask` lie within `-b ..= b`.
pub open spec fn within(mask: Seq<int>, b: int) -> bool {
    mask.len() == 64 && forall|i: int| 0 <= i < 64 ==> -b <= #[trigger] mask[i] <= b
}

/// A sum of `n` mask values lies within `n` times the bound of the values.
proof fn lemma_mask_sum_bound(x: u64, mask: Seq<int>, n: int, b: int)
    requires
        0 <= n <= 64,
        within(mask, b),
    ensures
        -n * b <= mask_sum(x, mask, n) <= n * b,
    decreases n,
{
    if n > 0 {
        lemma_mask_sum_bound(x, mask, n - 1, b);
        assert(-b <= mask[n - 1] <= b);
        assert(-(n - 1) * b - b == -n * b && (n - 1) * b + b == n * b) by (nonlinear_arith);
    } else {
        assert(-n * b == 0 && n * b == 0) by (nonlinear_arith)
            requires
                n == 0,
        ;
    }
}

/// A word below `2^k` has at most `k` set bits.
proof fn lemma_popcount_bound(x: u64, k: nat)
    requires
        x < pow2(k),
    ensures
        popcount(x) <= k,
    decreases k,
{
    if x != 0 {
        if k == 0 {
            vstd::arithmetic::power2::lemma2_to64();
        } else {
            vstd::arithmetic::power2::lemma_pow2_unfold(k);
            lemma_popcount_bound(x / 2, (k - 1) as nat);
        }
    }
}

/// A word has at most 64 set bits.
pub proof fn lemma_popcount_at_most_64(x: u64)
    ensures
        popcount(x) <= 64,
{
    vstd::arithmetic::power2::lemma2_to64();
    lemma_popcount_bound(x, 64);
}

/// The position values of pawns, rank 8 first.
pub open spec fn pawn_mask_values() -> Seq<int> {
    seq![
        0, 0, 0, 0, 0, 0, 0, 0,
        50, 50, 50, 50, 50, 50, 50, 50,
        10, 10, 20, 30, 30, 20, 10, 10,
        5, 5, 10, 25, 25, 10, 5, 5,
        0, 0, 0, 20, 20, 0, 0, 0,
        5, -5, -10, 0, 0, -10, -5, 5,
        5, 10, 10, -20, -20, 10, 10, 5,
        0, 0, 0, 0, 0, 0, 0, 0,
    ]
}

/// The position values of knights, rank 8 first.
pub open spec fn knight_mask_values() -> Seq<int> {
    seq![
        -50, -40, -30, -30, -30, -30, -40, -50,
        -40, -20, 0, 0, 0, 0, -20, -40,
        -30, 0, 10, 15, 15, 10, 0, -30,
        -30, 5, 15, 20, 20, 15, 5, -30,
        -30, 0, 15, 20, 20, 15, 0, -30,
        -30, 5, 10, 15, 15, 10, 5, -30,
        -40, -20, 0, 5, 5, 0, -20, -40,
        -50, -40, -30, -30, -30, -30, -40, -50,
    ]
}

/// The position values of bishops, rank 8 first.
pub open spec fn bishop_mask_values() -> Seq<int> {
    seq![
        -20, -10, -10, -10, -10, -10, -10, -20,
        -10, 0, 0, 0, 0, 0, 0, -10,
        -10, 0, 5, 10, 10, 5, 0, -10,
        -10, 5, 5, 10, 10, 5, 5, -10,
        -10, 0, 10, 10, 10, 10, 0, -10,
        -10, 10, 10, 10, 10, 10, 10, -10,
        -10, 5, 0, 0, 0, 0, 5, -10,
        -20, -10, -10, -10, -10, -10, -10, -20,
    ]
}

/// The position values of rooks, rank 8 first.
pub open spec fn rook_mask_values() -> Seq<int> {
    seq![
        0, 0, 0, 0, 0, 0, 0, 0,
        5, 10, 10, 10, 10, 10, 10, 5,
        -5, 0, 0, 0, 0, 0, 0, -5,
        -5, 0, 0, 0, 0, 0, 0, -5,
        -5, 0, 0, 0, 0, 0, 0, -5,
        -5, 0, 0, 0, 0, 0, 0, -5,
        -5, 0, 0, 0, 0, 0, 0, -5,
        0, 0, 0, 5, 5, 0, 0, 0,
    ]
}

/// The position values of queens, rank 8 first.
pub open spec fn queen_mask_values() -> Seq<int> {
    seq![
        -20, -10, -10, -5, -5, -10, -10, -20,
        -10, 0, 0, 0, 0, 0, 0, -10,
        -10, 0, 5, 5, 5, 5, 0, -10,
        -5, 0, 5, 5, 5, 5, 0, -5,
        0, 0, 5, 5, 5, 5, 0, -5,
        -10, 5, 5, 5, 5, 5, 0, -10,
        -10, 0, 5, 0, 0, 0, 0, -10,
        -20, -10, -10, -5, -5, -10, -10, -20,
    ]
}

/// The position values of the king, rank 8 first.
pub open spec fn king_mask_values() -> Seq<int> {
    seq![
        -30, -40, -40, -50, -50, -40, -40, -30,
        -30, -40, -40, -50, -50, -40, -40, -30,
        -30, -40, -40, -50, -50, -40, -40, -30,
        -30, -40, -40, -50, -50, -40, -40, -30,
        -20, -30, -30, -40, -40, -30, -30, -20,
        -10, -20, -20, -20, -20, -20, -20, -10,
        20, 20, 0, 0, 0, 0, 20, 20,
        20, 30, 10, 0, 0, 10, 30, 20,
    ]
}

/// The position values of pawns, rank 8 first.
fn pawn_mask() -> (r: [i32; 64])
    ensures
        widen(r@) == pawn_mask_values(),
        mask_fits(r@),
        within(widen(r@), 50),
{
    let r = [
        0, 0, 0, 0, 0, 0, 0, 0,
        50, 50, 50, 50, 50, 50, 50, 50,
        10, 10, 20, 30, 30, 20, 10, 10,
        5, 5, 10, 25, 25, 10, 5, 5,
        0, 0, 0, 20, 20, 0, 0, 0,
        5, -5, -10, 0, 0, -10, -5, 5,
        5, 10, 10, -20, -20, 10, 10, 5,
        0, 0, 0, 0, 0, 0, 0, 0,
    ];
    assert(widen(r@) =~= pawn_mask_values());
    r
}

/// The position values of knights, rank 8 first.
fn knight_mask() -> (r: [i32; 64])
    ensures
        widen(r@) == knight_mask_values(),
        mask_fits(r@),
        within(widen(r@), 50),
{
    let r = [
        -50, -40, -30, -30, -30, -30, -40, -50,
        -40, -20, 0, 0, 0, 0, -20, -40,
        -30, 0, 10, 15, 15, 10, 0, -30,
        -30, 5, 15, 20, 20, 15, 5, -30,
        -30, 0, 15, 20, 20, 15, 0, -30,
        -30, 5, 10, 15, 15, 10, 5, -30,
        -40, -20, 0, 5, 5, 0, -20, -40,
        -50, -40, -30, -30, -30, -30, -40, -50,
    ];
    assert(widen(r@) =~= knight_mask_values());
    r
}

/// The position values of bishops, rank 8 first.
fn bishop_mask() -> (r: [i32; 64])
    ensures
        widen(r@) == bishop_mask_values(),
        mask_fits(r@),
        within(widen(r@), 50),
{
    let r = [
        -20, -10, -10, -10, -10, -10, -10, -20,
        -10, 0, 0, 0, 0, 0, 0, -10,
        -10, 0, 5, 10, 10, 5, 0, -10,
        -10, 5, 5, 10, 10, 5, 5, -10,
        -10, 0, 10, 10, 10, 10, 0, -10,
        -10, 10, 10, 10, 10, 10, 10, -10,
        -10, 5, 0, 0, 0, 0, 5, -10,
        -20, -10, -10, -10, -10, -10, -10, -20,
    ];
    assert(widen(r@) =~= bishop_mask_values());
    r
}

/// The position values of rooks, rank 8 first.
fn rook_mask() -> (r: [i32; 64])
    ensures
        widen(r@) == rook_mask_values(),
        mask_fits(r@),
        within(widen(r@), 50),
{
    let r = [
        0, 0, 0, 0, 0, 0, 0, 0,
        5, 10, 10, 10, 10, 10, 10, 5,
        -5, 0, 0, 0, 0, 0, 0, -5,
        -5, 0, 0, 0, 0, 0, 0, -5,
        -5, 0, 0, 0, 0, 0, 0, -5,
        -5, 0, 0, 0, 0, 0, 0, -5,
        -5, 0, 0, 0, 0, 0, 0, -5,
        0, 0, 0, 5, 5, 0, 0, 0,
    ];
    assert(widen(r@) =~= rook_mask_values());
    r
}

/// The position values of queens, rank 8 first.
fn queen_mask() -> (r: [i32; 64])
    ensures
        widen(r@) == queen_mask_values(),
        mask_fits(r@),
        within(widen(r@), 50),
{
    let r = [
        -20, -10, -10, -5, -5, -10, -10, -20,
        -10, 0, 0, 0, 0, 0, 0, -10,
        -10, 0, 5, 5, 5, 5, 0, -10,
        -5, 0, 5, 5, 5, 5, 0, -5,
        0, 0, 5, 5, 5, 5, 0, -5,
        -10, 5, 5, 5, 5, 5, 0, -10,
        -10, 0, 5, 0, 0, 0, 0, -10,
        -20, -10, -10, -5, -5, -10, -10, -20,
    ];
    assert(widen(r@) =~= queen_mask_values());
    r
}

/// The position values of the king, rank 8 first.
fn king_mask() -> (r: [i32; 64])
    ensures
        widen(r@) == king_mask_values(),
        mask_fits(r@),
        within(widen(r@), 50),
{
    let r = [
        -30, -40, -40, -50, -50, -40, -40, -30,
        -30, -40, -40, -50, -50, -40, -40, -30,
        -30, -40, -40, -50, -50, -40, -40, -30,
        -30, -40, -40, -50, -50, -40, -40, -30,
        -20, -30, -30, -40, -40, -30, -30, -20,
        -10, -20, -20, -20, -20, -20, -20, -10,
        20, 20, 0, 0, 0, 0, 20, 20,
        20, 30, 10, 0, 0, 10, 30, 20,
    ];
    assert(widen(r@) =~= king_mask_values());
    r
}

/// Applies a mask given rank 1 first: the sum of the mask values of the set squares.
fn apply_mask_flipped(bitboard: BitBoard, mask: &[i32; 64]) -> (r: i32)
    requires
        mask_fits(mask@),
    ensures
        r == mask_sum(bitboard.0, widen(mask@), 64),
{
    let x = bitboard.0;
    let mut sum: i32 = 0;
    let mut i: usize = 0;
    while i < 64
        invariant
            i <= 64,
            mask_fits(mask@),
            sum == mask_sum(x, widen(mask@), i as int),
        decreases 64 - i,
    {
        proof {
            assert(within(widen(mask@), mask_bound()));
            lemma_mask_sum_bound(x, widen(mask@), i as int, mask_bound());
            lemma_mask_sum_bound(x, widen(mask@), i + 1, mask_bound());
        }
        if (x >> i as u64) & 1 == 1 {
            sum = sum + mask[i];
        }
        i = i + 1;
    }
    sum
}

/// Applies a mask to the given bitboard: the sum of the mask values of the
/// set squares, the mask given as ranks from 8 to 1.
pub fn apply_mask(bitboard: BitBoard, mask: &[i32; 64]) -> (r: i32)
    requires
        mask_fits(mask@),
    ensures
        r == mask_sum(mirror_h_spec(bitboard.0), widen(mask@), 64),
{
    apply_mask_flipped(bitboard.mirror_horizontal(), mask)
}

/// The files next to file `f`.
pub open spec fn adjacent_files(f: int) -> u64 {
    (if f > 0 {
        file_bits(f - 1)
    } else {
        0
    }) | (if f < 7 {
        file_bits(f + 1)
    } else {
        0
    })
}

/// The number of files below `n` with more than one pawn of `pawns`.
pub open spec fn doubled_files(pawns: u64, n: int) -> int
    decreases n,
{
    if n <= 0 {
        0
    } else {
        doubled_files(pawns, n - 1) + if popcount(pawns & file_bits(n - 1)) > 1 {
            1int
        } else {
            0
        }
    }
}

/// The number of files below `n` with a pawn of `pawns` but no pawn on a file next to it.
pub open spec fn isolated_files(pawns: u64, n: int) -> int
    decreases n,
{
    if n <= 0 {
        0
    } else {
        isolated_files(pawns, n - 1) + if pawns & file_bits(n - 1) != 0 && pawns & adjacent_files(
            n - 1,
        ) == 0 {
            1int
        } else {
            0
        }
    }
}

/// The material and position score of one kind of piece: `value` per piece
/// of White less Black, plus the mask values of the white pieces (seen from
/// White) less those of the black pieces (seen from Black).
pub open spec fn kind_score(white: u64, black: u64, value: int, mask: Seq<int>) -> int {
    (popcount(white) - popcount(black)) * value + mask_sum(mirror_h_spec(white), mask, 64)
        - mask_sum(black, mask, 64)
}

/// The pawn score: material and position, with a penalty of 50 for each
/// file with doubled pawns and for each isolated pawn file.
pub open spec fn pawn_score(white: u64, black: u64) -> int {
    kind_score(white, black, 100, pawn_mask_values()) + 50 * doubled_files(black, 8) - 50
        * doubled_files(white, 8) + 50 * isolated_files(black, 8) - 50 * isolated_files(white, 8)
}

/// The score of a state in centipawns; positive values favour White.
pub open spec fn score_spec(s: GameState) -> int {
    let w = s.white_board;
    let b = s.black_board;
    pawn_score(w.pawns.0, b.pawns.0) + kind_score(w.knights.0, b.knights.0, 300, knight_mask_values())
        + kind_score(w.bishops.0, b.bishops.0, 300, bishop_mask_values()) + kind_score(
        w.rooks.0,
        b.rooks.0,
        500,
        rook_mask_values(),
    ) + kind_score(w.queens.0, b.queens.0, 900, queen_mask_values()) + kind_score(
        w.king.0,
        b.king.0,
        0,
        king_mask_values(),
    )
}

/// The material and position score of one kind of piece.
fn kind(white: BitBoard, black: BitBoard, value: i32, mask: &[i32; 64]) -> (r: i32)
    requires
        0 <= value <= 900,
        mask_fits(mask@),
        within(widen(mask@), 50),
    ensures
        r == kind_score(white.0, black.0, value as int, widen(mask@)),
        -64000 <= r <= 64000,
{
    proof {
        lemma_popcount_at_most_64(white.0);
        lemma_popcount_at_most_64(black.0);
        lemma_mask_sum_bound(mirror_h_spec(white.0), widen(mask@), 64, 50);
        lemma_mask_sum_bound(black.0, widen(mask@), 64, 50);
    }
    let diff = white.count() as i32 - black.count() as i32;
    assert(-64 <= diff <= 64);
    assert(-57600 <= diff * value <= 57600) by (nonlinear_arith)
        requires
            -64 <= diff <= 64,
            0 <= value <= 900,
    ;
    diff * value + apply_mask(white, mask) - apply_mask_flipped(black, mask)
}

/// The number of files with more than one of the given pawns.
fn doubled(pawns: BitBoard) -> (r: i32)
    ensures
        r == doubled_files(pawns.0, 8),
        0 <= r <= 8,
{
    let mut count: i32 = 0;
    let mut f: u8 = 0;
    while f < 8
        invariant
            f <= 8,
            count == doubled_files(pawns.0, f as int),
            0 <= count <= f,
        decreases 8 - f,
    {
        if BitBoard(pawns.0 & File::from_index(f).to_bitboard().0).count() > 1 {
            count = count + 1;
        }
        f = f + 1;
    }
    count
}

/// The number of files with one of the given pawns but none next to it.
fn isolated(pawns: BitBoard) -> (r: i32)
    ensures
        r == isolated_files(pawns.0, 8),
        0 <= r <= 8,
{
    let mut count: i32 = 0;
    let mut f: u8 = 0;
    while f < 8
        invariant
            f <= 8,
            count == isolated_files(pawns.0, f as int),
            0 <= count <= f,
        decreases 8 - f,
    {
        let file = File::from_index(f);
        if pawns.0 & file.to_bitboard().0 != 0 {
            let next: u64 = match file.next() {
                Some(n) => n.to_bitboard().0,
                None => 0,
            };
            let prev: u64 = match file.prev() {
                Some(p) => p.to_bitboard().0,
                None => 0,
            };
            assert((prev | next) == adjacent_files(f as int));
            if pawns.0 & (prev | next) == 0 {
                count = count + 1;
            }
        }
        f = f + 1;
    }
    count
}

/// Quickly computes the score of the given game state, in centipawns.
/// Positive values indicate that White is winning, negative values that Black
/// is winning; a marginal score of 100 is roughly the advantage of a pawn.
pub fn score(state: &GameState) -> (r: i32)
    ensures
        r == score_spec(*state),
{
    let w = state.white_board;
    let b = state.black_board;
    let pawns = kind(w.pawns, b.pawns, 100, &pawn_mask()) + 50 * doubled(b.pawns) - 50 * doubled(
        w.pawns,
    ) + 50 * isolated(b.pawns) - 50 * isolated(w.pawns);
    pawns + kind(w.knights, b.knights, 300, &knight_mask()) + kind(
        w.bishops,
        b.bishops,
        300,
        &bishop_mask(),
    ) + kind(w.rooks, b.rooks, 500, &rook_mask()) + kind(w.queens, b.queens, 900, &queen_mask())
        + kind(w.king, b.king, 0, &king_mask())
}

} // verus!
