//! A square on the chess board.

use vstd::prelude::*;

use crate::board::bitboard::{bit, mirror_d_index, mirror_h_index, BitBoard};
use crate::board::file::File;
use crate::board::rank::Rank;

verus! {

/// The A1-H8 diagonal.
pub const MAIN_DIAGONAL: u64 = 0x8040201008040201;

/// The A8-H1 anti-diagonal.
pub const MAIN_ANTIDIAGONAL: u64 = 0x0102040810204080;

/// The words whose low `n` bits are set, for `n < 64`.
pub open spec fn low_mask(n: int) -> u64 {
    ((1u64 << (n as u64)) - 1) as u64
}

/// The word whose low `n` bits are set.
fn low_bits(n: u64) -> (r: u64)
    requires
        n < 64,
    ensures
        r == low_mask(n as int),
{
    assert(1u64 << n >= 1) by (bit_vector)
        requires
            n < 64,
    ;
    (1u64 << n) - 1
}

/// The A1-H8 diagonal through the square on file `f` and rank `r`: the main
/// diagonal shifted sideways by `f - r` files, with the squares that wrap
/// around the board edge masked off.
pub open spec fn diagonal_bits(f: int, r: int) -> u64 {
    if f > r {
        (MAIN_DIAGONAL << ((f - r) as u64)) & low_mask(64 - 8 * (f - r))
    } else {
        (MAIN_DIAGONAL >> ((r - f) as u64)) & !low_mask(8 * (r - f))
    }
}

/// The A8-H1 anti-diagonal through the square on file `f` and rank `r`: the
/// main anti-diagonal shifted by `r + f - 7` files, with the squares that wrap
/// around the board edge masked off.
pub open spec fn antidiagonal_bits(f: int, r: int) -> u64 {
    if r + f - 7 >= 0 {
        (MAIN_ANTIDIAGONAL & !low_mask(8 * (r + f - 7))) << ((r + f - 7) as u64)
    } else {
        (MAIN_ANTIDIAGONAL & low_mask(64 - 8 * (7 - r - f))) >> ((7 - r - f) as u64)
    }
}

/// A square of the board, numbered 0 (A1) to 63 (H8), rank by rank.
#[derive(PartialEq, Eq, Structural, Clone, Copy, Debug)]
pub struct Square(u8);

impl Square {
    /// The number of the square.
    pub closed spec fn index(self) -> int {
        self.0 as int
    }

    /// Every square lies on the board.
    #[verifier::type_invariant]
    pub open spec fn on_board(self) -> bool {
        0 <= self.index() < 64
    }

    /// The square with the given number, for `0 <= i < 64`.
    pub closed spec fn at(i: int) -> Square {
        Square(i as u8)
    }

    /// The square built from a number on the board has that number.
    pub broadcast proof fn lemma_at_index(i: int)
        requires
            0 <= i < 64,
        ensures
            #[trigger] Square::at(i).index() == i,
    {
    }

    /// Two squares with the same number are the same square.
    pub proof fn lemma_index_injective(a: Square, b: Square)
        requires
            a.index() == b.index(),
        ensures
            a == b,
    {
    }

    /// Creates the square with the given number.
    pub fn new(val: u8) -> (r: Self)
        requires
            val < 64,
        ensures
            r.index() == val,
            r == Square::at(val as int),
    {
        Square(val)
    }

    /// Returns the number of the square.
    pub fn to_index(&self) -> (r: u8)
        ensures
            r as int == self.index(),
            r < 64,
    {
        proof { use_type_invariant(self); }
        self.0
    }

    /// Returns a bitboard with only the square marked.
    pub fn to_bitboard(&self) -> (r: BitBoard)
        ensures
            r.0 == 1u64 << self.index() as u64,
    {
        proof { use_type_invariant(self); }
        BitBoard::new(1u64 << self.0)
    }

    /// Returns the file of the square.
    pub fn file(&self) -> (r: File)
        ensures
            r.index() == self.index() % 8,
    {
        proof { use_type_invariant(self); }
        File::from_index(self.0 % 8)
    }

    /// Returns the rank of the square.
    pub fn rank(&self) -> (r: Rank)
        ensures
            r.index() == self.index() / 8,
    {
        proof { use_type_invariant(self); }
        Rank::from_index(self.0 / 8)
    }

    /// Returns the square from the opposite player's point of view.
    pub fn flip(&self) -> (r: Self)
        ensures
            r.index() == 63 - self.index(),
    {
        proof { use_type_invariant(self); }
        Square::new(63 - self.0)
    }

    /// Returns the square mirrored horizontally.
    pub fn mirror_horizontal(&self) -> (r: Self)
        ensures
            r.index() == mirror_h_index(self.index()),
    {
        proof { use_type_invariant(self); }
        Square::new(8 * (7 - (self.0 / 8)) + (self.0 % 8))
    }

    /// Returns the square mirrored across the A1-H8 diagonal.
    pub fn mirror_diag(&self) -> (r: Self)
        ensures
            r.index() == mirror_d_index(self.index()),
    {
        proof { use_type_invariant(self); }
        Square::new(8 * (self.0 % 8) + (self.0 / 8))
    }

    /// Creates the square on the given file and rank.
    pub fn from_coordinates(file: File, rank: Rank) -> (r: Self)
        ensures
            r.index() == file.index() + 8 * rank.index(),
    {
        Square::new(file.to_index() + rank.to_index() * 8)
    }

    /// Returns the diagonal (A1-H8 direction) which passes through the square.
    pub fn diagonal(&self) -> (r: BitBoard)
        ensures
            r.0 == diagonal_bits(self.index() % 8, self.index() / 8),
            forall|j: int|
                0 <= j < 64 ==> #[trigger] r.has(j) == (j % 8 - j / 8 == self.index() % 8
                    - self.index() / 8),
    {
        proof {
            use_type_invariant(self);
            assert forall|j: int| 0 <= j < 64 implies #[trigger] bit(
                diagonal_bits(self.index() % 8, self.index() / 8),
                j,
            ) == (j % 8 - j / 8 == self.index() % 8 - self.index() / 8) by {
                lemma_diagonal_bit(self.index() % 8, self.index() / 8, j);
            }
        }
        let f = self.0 % 8;
        let r = self.0 / 8;
        if f > r {
            let d = (f - r) as u64;
            BitBoard::new((MAIN_DIAGONAL << d) & low_bits(64 - 8 * d))
        } else {
            let d = (r - f) as u64;
            BitBoard::new((MAIN_DIAGONAL >> d) & !low_bits(8 * d))
        }
    }

    /// Returns the anti-diagonal (A8-H1 direction) which passes through the square.
    pub fn antidiagonal(&self) -> (r: BitBoard)
        ensures
            r.0 == antidiagonal_bits(self.index() % 8, self.index() / 8),
            forall|j: int|
                0 <= j < 64 ==> #[trigger] r.has(j) == (j % 8 + j / 8 == self.index() % 8
                    + self.index() / 8),
    {
        proof {
            use_type_invariant(self);
            assert forall|j: int| 0 <= j < 64 implies #[trigger] bit(
                antidiagonal_bits(self.index() % 8, self.index() / 8),
                j,
            ) == (j % 8 + j / 8 == self.index() % 8 + self.index() / 8) by {
                lemma_antidiagonal_bit(self.index() % 8, self.index() / 8, j);
            }
        }
        let f = self.0 % 8;
        let r = self.0 / 8;
        if r + f >= 7 {
            let d = (r + f - 7) as u64;
            BitBoard::new((MAIN_ANTIDIAGONAL & !low_bits(8 * d)) << d)
        } else {
            let d = (7 - r - f) as u64;
            BitBoard::new((MAIN_ANTIDIAGONAL & low_bits(64 - 8 * d)) >> d)
        }
    }
}

/// The diagonal through square `(f, r)` holds the squares with the same
/// difference of file and rank.
pub proof fn lemma_diagonal_bit(f: int, r: int, j: int)
    requires
        0 <= f < 8,
        0 <= r < 8,
        0 <= j < 64,
    ensures
        bit(diagonal_bits(f, r), j) == (j % 8 - j / 8 == f - r),
{
    let v = j as u64;
    let fj = v & 7;
    let rj = v >> 3;
    assert(fj == v % 8 && rj == v / 8) by (bit_vector)
        requires
            v < 64,
            fj == v & 7,
            rj == v >> 3,
    ;
    if f > r {
        let d = (f - r) as u64;
        let n = (64 - 8 * (f - r)) as u64;
        let m = 1u64 << n;
        assert(m >= 1) by (bit_vector)
            requires
                n < 64,
                m == 1u64 << n,
        ;
        assert(low_mask(n as int) == vstd::prelude::sub(m, 1u64));
        assert(((((0x8040201008040201u64 << d) & vstd::prelude::sub(m, 1u64)) >> v) & 1 == 1) == (fj
            == rj + d)) by (bit_vector)
            requires
                1 <= d <= 7,
                n + 8 * d == 64,
                m == 1u64 << n,
                v < 64,
                fj == v & 7,
                rj == v >> 3,
        ;
    } else {
        let d = (r - f) as u64;
        let n = (8 * (r - f)) as u64;
        let m = 1u64 << n;
        assert(m >= 1) by (bit_vector)
            requires
                n < 64,
                m == 1u64 << n,
        ;
        assert(low_mask(n as int) == vstd::prelude::sub(m, 1u64));
        assert(((((0x8040201008040201u64 >> d) & !vstd::prelude::sub(m, 1u64)) >> v) & 1 == 1) == (
        rj == fj + d)) by (bit_vector)
            requires
                d <= 7,
                n == 8 * d,
                m == 1u64 << n,
                v < 64,
                fj == v & 7,
                rj == v >> 3,
        ;
    }
}

/// The anti-diagonal through square `(f, r)` holds the squares with the
/// same sum of file and rank.
pub proof fn lemma_antidiagonal_bit(f: int, r: int, j: int)
    requires
        0 <= f < 8,
        0 <= r < 8,
        0 <= j < 64,
    ensures
        bit(antidiagonal_bits(f, r), j) == (j % 8 + j / 8 == f + r),
{
    let v = j as u64;
    let fj = v & 7;
    let rj = v >> 3;
    assert(fj == v % 8 && rj == v / 8) by (bit_vector)
        requires
            v < 64,
            fj == v & 7,
            rj == v >> 3,
    ;
    if r + f - 7 >= 0 {
        let d = (r + f - 7) as u64;
        let n = (8 * (r + f - 7)) as u64;
        let m = 1u64 << n;
        assert(m >= 1) by (bit_vector)
            requires
                n < 64,
                m == 1u64 << n,
        ;
        assert(low_mask(n as int) == vstd::prelude::sub(m, 1u64));
        assert(((((0x0102040810204080u64 & !vstd::prelude::sub(m, 1u64)) << d) >> v) & 1 == 1) == (
        fj + rj == d + 7)) by (bit_vector)
            requires
                d <= 7,
                n == 8 * d,
                m == 1u64 << n,
                v < 64,
                fj == v & 7,
                rj == v >> 3,
        ;
    } else {
        let d = (7 - r - f) as u64;
        let n = (64 - 8 * (7 - r - f)) as u64;
        let m = 1u64 << n;
        assert(m >= 1) by (bit_vector)
            requires
                n < 64,
                m == 1u64 << n,
        ;
        assert(low_mask(n as int) == vstd::prelude::sub(m, 1u64));
        assert(((((0x0102040810204080u64 & vstd::prelude::sub(m, 1u64)) >> d) >> v) & 1 == 1) == (fj
            + rj + d == 7)) by (bit_vector)
            requires
                1 <= d <= 7,
                n + 8 * d == 64,
                m == 1u64 << n,
                v < 64,
                fj == v & 7,
                rj == v >> 3,
        ;
    }
}

/// Flipping a square, mirroring it horizontally, or mirroring it in the
/// A1-H8 diagonal, each twice over, gives back the square.
pub proof fn lemma_square_transforms_involutive(i: int)
    requires
        0 <= i < 64,
    ensures
        63 - (63 - i) == i,
        0 <= mirror_h_index(i) < 64,
        mirror_h_index(mirror_h_index(i)) == i,
        0 <= mirror_d_index(i) < 64,
        mirror_d_index(mirror_d_index(i)) == i,
{
    let f = i % 8;
    let r = i / 8;
    assert(i == 8 * r + f);
    let h = mirror_h_index(i);
    assert(h == 8 * (7 - r) + f);
    assert(h / 8 == 7 - r && h % 8 == f);
    let d = mirror_d_index(i);
    assert(d == 8 * f + r);
    assert(d / 8 == f && d % 8 == r);
}

} // verus!
