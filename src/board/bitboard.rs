//! A 64-bit bitboard.

use bit_reverse::ParallelReverse;
use std::ops::{BitAnd, BitOr, BitXor, Not, Shl, Shr, Sub};
use vstd::prelude::*;

use crate::board::file::File;
use crate::board::rank::Rank;
use crate::board::square::Square;

verus! {

/// Whether bit `i` of `x` is set: `i` is a square of the board in the set `x`.
pub open spec fn bit(x: u64, i: int) -> bool {
    0 <= i < 64 && (x >> (i as u64)) & 1 == 1
}

/// The number of the square that a horizontal mirror sends square `i` to.
pub open spec fn mirror_h_index(i: int) -> int {
    8 * (7 - i / 8) + i % 8
}

/// The number of the square that a mirror in the A1-H8 diagonal sends square `i` to.
pub open spec fn mirror_d_index(i: int) -> int {
    8 * (i % 8) + i / 8
}

/// The bytes of `x` in reverse order: rank `n` becomes rank `9 - n`.
pub open spec fn mirror_h_spec(x: u64) -> u64 {
    ((x >> 56u64) & 0xFFu64) | ((x >> 40u64) & 0xFF00u64) | ((x >> 24u64) & 0xFF0000u64) | ((x
        >> 8u64) & 0xFF000000u64) | ((x << 8u64) & 0xFF00000000u64) | ((x << 24u64)
        & 0xFF0000000000u64) | ((x << 40u64) & 0xFF000000000000u64) | ((x << 56u64)
        & 0xFF00000000000000u64)
}

/// One masked exchange step: the bits of `x` under `k` trade places with
/// the bits `s` positions lower.
pub open spec fn delta_swap(x: u64, k: u64, s: u64) -> u64 {
    let t = k & (x ^ (x << s));
    x ^ (t ^ (t >> s))
}

/// The board mirrored in the A1-H8 diagonal, as three masked exchange passes.
pub open spec fn mirror_d_spec(x: u64) -> u64 {
    delta_swap(
        delta_swap(delta_swap(x, 0x0f0f0f0f00000000u64, 28), 0x3333000033330000u64, 14),
        0x5500550055005500u64,
        7,
    )
}

/// The word with only bit `i` set.
pub open spec fn single(i: int) -> u64 {
    1u64 << (i as u64)
}

/// The number of set bits of `x`.
pub open spec fn popcount(x: u64) -> nat
    decreases x,
{
    if x == 0 {
        0
    } else {
        (x % 2) as nat + popcount(x / 2)
    }
}

/// The numbers below `n` of the squares set in `x`, in increasing order.
pub open spec fn set_squares(x: u64, n: int) -> Seq<int>
    decreases n,
{
    if n <= 0 {
        Seq::empty()
    } else if bit(x, n - 1) {
        set_squares(x, n - 1).push(n - 1)
    } else {
        set_squares(x, n - 1)
    }
}

/// The squares listed by `set_squares` are exactly the set squares below `n`.
pub proof fn lemma_set_squares_contains(x: u64, n: int, k: int)
    requires
        0 <= n <= 64,
    ensures
        set_squares(x, n).contains(k) <==> (0 <= k < n && bit(x, k)),
    decreases n,
{
    if n > 0 {
        lemma_set_squares_contains(x, n - 1, k);
        if bit(x, n - 1) {
            let s = set_squares(x, n - 1);
            assert(s.push(n - 1).contains(k) <==> (s.contains(k) || k == n - 1)) by {
                if k == n - 1 {
                    assert(s.push(n - 1)[s.len() as int] == k);
                }
                if s.push(n - 1).contains(k) {
                    let j = choose|j: int| 0 <= j < s.len() + 1 && #[trigger] s.push(n - 1)[j] == k;
                    if j < s.len() {
                        assert(s[j] == k);
                    }
                }
                if s.contains(k) {
                    let j = choose|j: int| 0 <= j < s.len() && #[trigger] s[j] == k;
                    assert(s.push(n - 1)[j] == k);
                }
            }
        }
    }
}

/// Two words that agree on every bit from `k` up agree above `k`.
proof fn lemma_high_bits_equal(a: u64, b: u64, k: u64)
    requires
        k <= 63,
        forall|i: int| 0 <= i < 64 ==> bit(a, i) == bit(b, i),
    ensures
        a >> k == b >> k,
    decreases 63 - k,
{
    assert(bit(a, k as int) == bit(b, k as int));
    if k == 63 {
        assert(a >> 63u64 == b >> 63u64) by (bit_vector)
            requires
                ((a >> 63u64) & 1 == 1) == ((b >> 63u64) & 1 == 1),
        ;
    } else {
        lemma_high_bits_equal(a, b, (k + 1) as u64);
        assert(a >> k == b >> k) by (bit_vector)
            requires
                k < 63,
                a >> (k + 1) == b >> (k + 1),
                ((a >> k) & 1 == 1) == ((b >> k) & 1 == 1),
        ;
    }
}

/// Two words that agree on every bit are equal.
pub proof fn lemma_bits_equal(a: u64, b: u64)
    requires
        forall|i: int| 0 <= i < 64 ==> bit(a, i) == bit(b, i),
    ensures
        a == b,
{
    lemma_high_bits_equal(a, b, 0);
    assert(a >> 0u64 == a && b >> 0u64 == b) by (bit_vector);
}

/// Bit `i` of the horizontal mirror is bit `mirror_h_index(i)` of the original.
pub proof fn lemma_mirror_h_bit(x: u64, i: int)
    requires
        0 <= i < 64,
    ensures
        bit(mirror_h_spec(x), i) == bit(x, mirror_h_index(i)),
{
    let u = i as u64;
    assert(mirror_h_index(i) == (u ^ 56u64) as int) by {
        assert(u ^ 56u64 == 8 * (7 - u / 8) + u % 8) by (bit_vector)
            requires
                u < 64,
        ;
    }
    assert(((mirror_h_spec(x) >> u) & 1) == ((x >> (u ^ 56u64)) & 1)) by (bit_vector)
        requires
            u < 64,
    ;
}

/// Bit `i` of the diagonal mirror is bit `mirror_d_index(i)` of the original.
pub proof fn lemma_mirror_d_bit(x: u64, i: int)
    requires
        0 <= i < 64,
    ensures
        bit(mirror_d_spec(x), i) == bit(x, mirror_d_index(i)),
{
    let u = i as u64;
    let m = ((u & 7u64) << 3u64) | (u >> 3u64);
    assert(mirror_d_index(i) == m as int) by {
        assert(m == 8 * (u % 8) + u / 8) by (bit_vector)
            requires
                u < 64,
                m == ((u & 7u64) << 3u64) | (u >> 3u64),
        ;
    }
    assert(((mirror_d_spec(x) >> u) & 1) == ((x >> m) & 1)) by (bit_vector)
        requires
            u < 64,
            m == ((u & 7u64) << 3u64) | (u >> 3u64),
    ;
}

/// Mirroring a board horizontally twice, or in the A1-H8 diagonal twice,
/// gives back the board.
pub proof fn lemma_mirrors_involutive(x: u64)
    ensures
        mirror_h_spec(mirror_h_spec(x)) == x,
        mirror_d_spec(mirror_d_spec(x)) == x,
{
    assert forall|i: int| 0 <= i < 64 implies bit(mirror_h_spec(mirror_h_spec(x)), i) == bit(x, i) by {
        crate::board::square::lemma_square_transforms_involutive(i);
        lemma_mirror_h_bit(mirror_h_spec(x), i);
        lemma_mirror_h_bit(x, mirror_h_index(i));
    }
    lemma_bits_equal(mirror_h_spec(mirror_h_spec(x)), x);
    assert forall|i: int| 0 <= i < 64 implies bit(mirror_d_spec(mirror_d_spec(x)), i) == bit(x, i) by {
        crate::board::square::lemma_square_transforms_involutive(i);
        lemma_mirror_d_bit(mirror_d_spec(x), i);
        lemma_mirror_d_bit(x, mirror_d_index(i));
    }
    lemma_bits_equal(mirror_d_spec(mirror_d_spec(x)), x);
}

/// Flipping a board twice gives back the board: if `y` is `x` with square
/// `i` sent to square `63 - i`, and `z` is `y` flipped the same way, then `z`
/// is `x`.
pub proof fn lemma_flip_involutive(x: u64, y: u64, z: u64)
    requires
        forall|i: int| 0 <= i < 64 ==> #[trigger] bit(y, i) == bit(x, 63 - i),
        forall|i: int| 0 <= i < 64 ==> #[trigger] bit(z, i) == bit(y, 63 - i),
    ensures
        z == x,
{
    assert forall|i: int| 0 <= i < 64 implies bit(z, i) == bit(x, i) by {
        assert(bit(z, i) == bit(y, 63 - i));
        assert(bit(y, 63 - i) == bit(x, 63 - (63 - i)));
    }
    lemma_bits_equal(z, x);
}

/// A set of squares: bit `i` stands for the square numbered `i`.
#[derive(PartialEq, Eq, Structural, Clone, Copy, Debug)]
pub struct BitBoard(pub u64);

/// The bits of the bitboard with every square set.
pub const FULL: u64 = 0xFFFFFFFFFFFFFFFF;

/// The bits of the bitboard with every square empty.
pub const EMPTY: u64 = 0;

/// White player starting pawn positions.
pub const WHITE_START_PAWNS: u64 = 0xFF00;

/// White player starting rook positions.
pub const WHITE_START_ROOKS: u64 = 0x81;

/// White player starting knight positions.
pub const WHITE_START_KNIGHTS: u64 = 0x42;

/// White player starting bishop positions.
pub const WHITE_START_BISHOPS: u64 = 0x24;

/// White player starting queen position.
pub const WHITE_START_QUEENS: u64 = 0x08;

/// White player starting king position.
pub const WHITE_START_KINGS: u64 = 0x10;

/// Black player starting pawn positions.
pub const BLACK_START_PAWNS: u64 = 0x00FF000000000000;

/// Black player starting rook positions.
pub const BLACK_START_ROOKS: u64 = 0x8100000000000000;

/// Black player starting knight positions.
pub const BLACK_START_KNIGHTS: u64 = 0x4200000000000000;

/// Black player starting bishop positions.
pub const BLACK_START_BISHOPS: u64 = 0x2400000000000000;

/// Black player starting queen position.
pub const BLACK_START_QUEENS: u64 = 0x0800000000000000;

/// Black player starting king position.
pub const BLACK_START_KINGS: u64 = 0x1000000000000000;

/// Relies on bit_reverse's `ParallelReverse::swap_bits` on `u64`: bit `i` of
/// the result is bit `63 - i` of the argument.
#[verifier::external_body]
fn reverse_bits(x: u64) -> (r: u64)
    ensures
        forall|i: int| 0 <= i < 64 ==> #[trigger] bit(r, i) == bit(x, 63 - i),
{
    x.swap_bits()
}

/// Relies on `u64::count_ones`: the number of ones in the binary representation.
#[verifier::external_body]
fn count_ones(x: u64) -> (r: u32)
    ensures
        r as nat == popcount(x),
{
    x.count_ones()
}

impl BitBoard {
    /// Whether the square numbered `i` is in the set.
    pub open spec fn has(self, i: int) -> bool {
        bit(self.0, i)
    }

    /// Whether the set holds exactly one square.
    pub open spec fn is_single(self) -> bool {
        exists|i: int| 0 <= i < 64 && self.0 == #[trigger] single(i)
    }

    /// Creates a new instance from the given 64-bit integer.
    pub fn new(val: u64) -> (r: Self)
        ensures
            r.0 == val,
    {
        BitBoard(val)
    }

    /// Flips the bitboard such that it's from the perspective of the other player:
    /// square `i` goes to square `63 - i`.
    pub fn flip(&self) -> (r: Self)
        ensures
            forall|i: int| 0 <= i < 64 ==> #[trigger] r.has(i) == self.has(63 - i),
    {
        BitBoard(reverse_bits(self.0))
    }

    /// Mirrors the board horizontally: rank `n` goes to rank `9 - n`.
    pub fn mirror_horizontal(&self) -> (r: Self)
        ensures
            r.0 == mirror_h_spec(self.0),
    {
        let x = self.0;
        BitBoard(
            ((x >> 56u64) & 0xFFu64) | ((x >> 40u64) & 0xFF00u64) | ((x >> 24u64) & 0xFF0000u64)
                | ((x >> 8u64) & 0xFF000000u64) | ((x << 8u64) & 0xFF00000000u64) | ((x << 24u64)
                & 0xFF0000000000u64) | ((x << 40u64) & 0xFF000000000000u64) | ((x << 56u64)
                & 0xFF00000000000000u64),
        )
    }

    /// Mirrors the board along the A1-H8 diagonal: file `i` becomes rank `i`.
    pub fn mirror_diag(&self) -> (r: Self)
        ensures
            r.0 == mirror_d_spec(self.0),
    {
        let k1: u64 = 0x5500550055005500;
        let k2: u64 = 0x3333000033330000;
        let k4: u64 = 0x0f0f0f0f00000000;
        let mut x = self.0;
        let mut t = k4 & (x ^ (x << 28u64));
        x = x ^ (t ^ (t >> 28u64));
        t = k2 & (x ^ (x << 14u64));
        x = x ^ (t ^ (t >> 14u64));
        t = k1 & (x ^ (x << 7u64));
        x = x ^ (t ^ (t >> 7u64));
        BitBoard(x)
    }

    /// Counts the number of set bits on the bitboard.
    pub fn count(&self) -> (r: u32)
        ensures
            r as nat == popcount(self.0),
    {
        count_ones(self.0)
    }

    /// Returns the squares of the set, in increasing order.
    pub fn iter(&self) -> (r: Vec<Square>)
        ensures
            r@.len() == set_squares(self.0, 64).len(),
            forall|k: int| 0 <= k < r@.len() ==> #[trigger] r@[k].index() == set_squares(self.0, 64)[k],
            forall|k: int| 0 <= k < r@.len() ==> #[trigger] self.has(r@[k].index()),
            forall|i: int|
                0 <= i < 64 && #[trigger] self.has(i) ==> exists|k: int|
                    0 <= k < r@.len() && r@[k].index() == i,
            forall|k1: int, k2: int|
                0 <= k1 < k2 < r@.len() ==> #[trigger] r@[k1].index() < #[trigger] r@[k2].index(),
    {
        let mut r: Vec<Square> = Vec::new();
        let mut i: u8 = 0;
        while i < 64
            invariant
                i <= 64,
                r@.len() == set_squares(self.0, i as int).len(),
                forall|k: int| 0 <= k < r@.len() ==> #[trigger] r@[k].index() == set_squares(self.0, i as int)[k],
                forall|k: int| 0 <= k < r@.len() ==> #[trigger] r@[k].index() < i,
                forall|k1: int, k2: int|
                    0 <= k1 < k2 < r@.len() ==> #[trigger] r@[k1].index() < #[trigger] r@[k2].index(),
            decreases 64 - i,
        {
            if (self.0 >> i as u64) & 1 == 1 {
                r.push(Square::new(i));
            }
            i = i + 1;
        }
        proof {
            assert forall|k: int| 0 <= k < r@.len() implies #[trigger] self.has(r@[k].index()) by {
                lemma_set_squares_contains(self.0, 64, set_squares(self.0, 64)[k]);
            }
            assert forall|i: int| 0 <= i < 64 && #[trigger] self.has(i) implies exists|k: int|
                0 <= k < r@.len() && r@[k].index() == i by {
                lemma_set_squares_contains(self.0, 64, i);
                let k = choose|k: int|
                    0 <= k < set_squares(self.0, 64).len() && #[trigger] set_squares(self.0, 64)[k] == i;
                assert(r@[k].index() == i);
            }
        }
        r
    }

    /// Returns true if the given square is set in the bitboard.
    pub fn is_square_set(&self, square: Square) -> (r: bool)
        ensures
            r == self.has(square.index()),
    {
        let i = square.to_index() as u64;
        let x = self.0;
        let r = (1u64 << i) & x > 0;
        assert(((1u64 << i) & x > 0) == ((x >> i) & 1 == 1)) by (bit_vector)
            requires
                i < 64,
        ;
        r
    }

    /// Returns the bitboard with the given square set.
    pub fn set_square(&self, square: Square) -> (r: Self)
        ensures
            r.0 == self.0 | (1u64 << square.index() as u64),
    {
        BitBoard(self.0 | square.to_bitboard().0)
    }

    /// Returns the bitboard with the given square unset.
    pub fn unset_square(&self, square: Square) -> (r: Self)
        ensures
            r.0 == self.0 & !(1u64 << square.index() as u64),
    {
        BitBoard(self.0 & !square.to_bitboard().0)
    }

    /// Returns the bitboard with the square on the given file and rank set.
    pub fn set_coordinate(&self, file: File, rank: Rank) -> (r: Self)
        ensures
            r.0 == self.0 | (1u64 << (file.index() + 8 * rank.index()) as u64),
    {
        self.set_square(Square::from_coordinates(file, rank))
    }

    /// Returns the bitboard with the square on the given file and rank unset.
    pub fn unset_coordinate(&self, file: File, rank: Rank) -> (r: Self)
        ensures
            r.0 == self.0 & !(1u64 << (file.index() + 8 * rank.index()) as u64),
    {
        self.unset_square(Square::from_coordinates(file, rank))
    }

    /// Returns the bitboard with the given square toggled.
    pub fn toggle_square(&self, square: Square) -> (r: Self)
        ensures
            r.0 == self.0 ^ (1u64 << square.index() as u64),
    {
        BitBoard(self.0 ^ square.to_bitboard().0)
    }

    /// Returns true if the bitboard is empty.
    pub fn is_empty(&self) -> (r: bool)
        ensures
            r == (self.0 == 0),
    {
        self.0 == 0
    }

    /// Returns an empty bitboard.
    pub fn empty() -> (r: Self)
        ensures
            r.0 == 0,
    {
        BitBoard(EMPTY)
    }

    /// Returns a full bitboard.
    pub fn full() -> (r: Self)
        ensures
            r.0 == 0xFFFFFFFFFFFFFFFFu64,
    {
        BitBoard(FULL)
    }

    /// Returns the underlying u64.
    pub fn to_u64(&self) -> (r: u64)
        ensures
            r == self.0,
    {
        self.0
    }

    /// Converts a bitboard of exactly one square to that square.
    pub fn to_square(&self) -> (r: Square)
        requires
            self.is_single(),
        ensures
            self.0 == 1u64 << r.index() as u64,
    {
        let x = self.0;
        let tz = x.trailing_zeros();
        proof {
            let i = choose|i: int| 0 <= i < 64 && x == #[trigger] single(i);
            vstd::std_specs::bits::axiom_u64_trailing_zeros(x);
            let u = i as u64;
            let t = tz as u64;
            assert(x != 0) by (bit_vector)
                requires
                    u < 64,
                    x == 1u64 << u,
            ;
            assert(t == u) by (bit_vector)
                requires
                    u < 64,
                    t < 64,
                    x == 1u64 << u,
                    (x >> t) & 1 == 1,
            ;
        }
        Square::new(tz as u8)
    }
}

impl BitAnd for BitBoard {
    type Output = Self;

    fn bitand(self, rhs: Self) -> (r: Self)
        ensures
            r.0 == self.0 & rhs.0,
    {
        BitBoard(self.0 & rhs.0)
    }
}

impl vstd::std_specs::ops::BitAndSpecImpl for BitBoard {
    open spec fn obeys_bitand_spec() -> bool {
        true
    }

    open spec fn bitand_req(self, rhs: Self) -> bool {
        true
    }

    open spec fn bitand_spec(self, rhs: Self) -> Self {
        BitBoard(self.0 & rhs.0)
    }
}

impl BitOr for BitBoard {
    type Output = Self;

    fn bitor(self, rhs: Self) -> (r: Self)
        ensures
            r.0 == self.0 | rhs.0,
    {
        BitBoard(self.0 | rhs.0)
    }
}

impl vstd::std_specs::ops::BitOrSpecImpl for BitBoard {
    open spec fn obeys_bitor_spec() -> bool {
        true
    }

    open spec fn bitor_req(self, rhs: Self) -> bool {
        true
    }

    open spec fn bitor_spec(self, rhs: Self) -> Self {
        BitBoard(self.0 | rhs.0)
    }
}

impl BitXor for BitBoard {
    type Output = Self;

    fn bitxor(self, rhs: Self) -> (r: Self)
        ensures
            r.0 == self.0 ^ rhs.0,
    {
        BitBoard(self.0 ^ rhs.0)
    }
}

impl vstd::std_specs::ops::BitXorSpecImpl for BitBoard {
    open spec fn obeys_bitxor_spec() -> bool {
        true
    }

    open spec fn bitxor_req(self, rhs: Self) -> bool {
        true
    }

    open spec fn bitxor_spec(self, rhs: Self) -> Self {
        BitBoard(self.0 ^ rhs.0)
    }
}

impl Not for BitBoard {
    type Output = Self;

    fn not(self) -> (r: Self)
        ensures
            r.0 == !self.0,
    {
        BitBoard(!self.0)
    }
}

impl vstd::std_specs::ops::NotSpecImpl for BitBoard {
    open spec fn obeys_not_spec() -> bool {
        true
    }

    open spec fn not_req(self) -> bool {
        true
    }

    open spec fn not_spec(self) -> Self {
        BitBoard(!self.0)
    }
}

impl Shl<usize> for BitBoard {
    type Output = Self;

    fn shl(self, rhs: usize) -> (r: Self)
        ensures
            r.0 == self.0 << (rhs as u64),
    {
        BitBoard(self.0 << (rhs as u64))
    }
}

impl vstd::std_specs::ops::ShlSpecImpl<usize> for BitBoard {
    open spec fn obeys_shl_spec() -> bool {
        true
    }

    open spec fn shl_req(self, rhs: usize) -> bool {
        rhs < 64
    }

    open spec fn shl_spec(self, rhs: usize) -> Self {
        BitBoard(self.0 << (rhs as u64))
    }
}

impl Shr<usize> for BitBoard {
    type Output = Self;

    fn shr(self, rhs: usize) -> (r: Self)
        ensures
            r.0 == self.0 >> (rhs as u64),
    {
        BitBoard(self.0 >> (rhs as u64))
    }
}

impl vstd::std_specs::ops::ShrSpecImpl<usize> for BitBoard {
    open spec fn obeys_shr_spec() -> bool {
        true
    }

    open spec fn shr_req(self, rhs: usize) -> bool {
        rhs < 64
    }

    open spec fn shr_spec(self, rhs: usize) -> Self {
        BitBoard(self.0 >> (rhs as u64))
    }
}

impl Sub for BitBoard {
    type Output = Self;

    /// Subtraction of the words, wrapping around at zero.
    fn sub(self, rhs: Self) -> (r: Self)
        ensures
            r.0 == self.0.wrapping_sub(rhs.0),
    {
        BitBoard(self.0.wrapping_sub(rhs.0))
    }
}

impl vstd::std_specs::ops::SubSpecImpl for BitBoard {
    open spec fn obeys_sub_spec() -> bool {
        true
    }

    open spec fn sub_req(self, rhs: Self) -> bool {
        true
    }

    open spec fn sub_spec(self, rhs: Self) -> Self {
        BitBoard(self.0.wrapping_sub(rhs.0))
    }
}

impl Default for BitBoard {
    fn default() -> (r: Self)
        ensures
            r.0 == 0,
    {
        BitBoard(0)
    }
}

} // verus!
