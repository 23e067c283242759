//! The geometry of the sliding moves: the blocker-subtraction slide reaches
//! exactly the squares of a line up to and including the first blocker, and
//! the mirrored slides of the rook and the bishop together reach exactly the
//! squares those pieces see.

use vstd::prelude::*;

use crate::board::bitboard::{
    bit, lemma_bits_equal, lemma_mirror_d_bit, lemma_mirror_h_bit, mirror_d_index, mirror_d_spec,
    mirror_h_index, mirror_h_spec,
};
use crate::board::square::{diagonal_bits, lemma_diagonal_bit, lemma_square_transforms_involutive};
use crate::rules::basic_moves::file_bits;
use crate::rules::semilegal_moves::{bishop_reach, bishop_up, rook_reach, rook_up, slide_up};

verus! {

/// The squares strictly between square `p` and square `j`, for `p < j`.
pub open spec fn strictly_between(p: u64, j: u64) -> u64 {
    vstd::prelude::sub(1u64 << j, 1u64) & !vstd::prelude::sub(1u64 << p, 1u64) & !(1u64 << p)
}

/// Wrapping subtraction is the machine subtraction.
proof fn lemma_wrapping_sub_is_sub(x: u64, y: u64)
    ensures
        x.wrapping_sub(y) == vstd::prelude::sub(x, y),
{
    if x < y {
        let m = 0xFFFF_FFFF_FFFF_FFFFu64;
        assert(vstd::prelude::sub(x, y) == vstd::prelude::add(vstd::prelude::sub(m, y), vstd::prelude::add(x, 1u64))) by (bit_vector)
            requires
                m == 0xFFFF_FFFF_FFFF_FFFFu64,
        ;
        assert(vstd::prelude::add(x, 1u64) == x + 1);
        assert(vstd::prelude::sub(m, y) == m - y);
        assert(vstd::prelude::add((m - y) as u64, (x + 1) as u64) == m - y + x + 1);
    }
}

/// Doubling a single bit by wrapping multiplication shifts it up by one.
proof fn lemma_double_single(p: u64)
    requires
        p < 64,
    ensures
        (1u64 << p).wrapping_mul(2) == (1u64 << p) << 1u64,
{
    let o = 1u64 << p;
    if p < 63 {
        assert(o < 0x8000_0000_0000_0000u64 && o << 1u64 == vstd::prelude::mul(o, 2u64)) by (bit_vector)
            requires
                p < 63,
                o == 1u64 << p,
        ;
        assert(vstd::prelude::mul(o, 2u64) == o * 2);
    } else {
        assert(o == 0x8000_0000_0000_0000u64 && o << 1u64 == 0) by (bit_vector)
            requires
                p == 63,
                o == 1u64 << p,
        ;
        assert((0x8000_0000_0000_0000u64 as nat * 2) % 0x1_0000_0000_0000_0000 == 0);
    }
}

/// The upward slide from square `p` reaches exactly the squares `j` of the
/// line above `p` with no blocker of the line strictly between `p` and `j`.
pub proof fn lemma_slide_up_bit(line: u64, p: u64, b: u64, j: u64)
    requires
        p < 64,
        j < 64,
    ensures
        ((slide_up(line, 1u64 << p, b) >> j) & 1 == 1) <==> ((line >> j) & 1 == 1 && p < j && b
            & line & strictly_between(p, j) == 0),
{
    let o = 1u64 << p;
    lemma_double_single(p);
    lemma_wrapping_sub_is_sub(b & line, o << 1u64);
    let r = slide_up(line, o, b);
    assert(r == (vstd::prelude::sub(b & line, o << 1u64) ^ b) & line);
    assert(((r >> j) & 1 == 1) <==> ((line >> j) & 1 == 1 && p < j && b & line & strictly_between(p, j) == 0)) by (bit_vector)
        requires
            p < 64,
            j < 64,
            o == 1u64 << p,
            r == (vstd::prelude::sub(b & line, o << 1u64) ^ b) & line,
    ;
}

/// Whether no square of `b` on the file of `lo` lies strictly between `lo` and `hi`.
pub open spec fn file_clear(b: u64, lo: int, hi: int) -> bool {
    forall|k: int| lo < k < hi && k % 8 == lo % 8 ==> !#[trigger] bit(b, k)
}

/// Whether no square of `b` on the rank of `lo` lies strictly between `lo` and `hi`.
pub open spec fn rank_clear(b: u64, lo: int, hi: int) -> bool {
    forall|k: int| lo < k < hi && k / 8 == lo / 8 ==> !#[trigger] bit(b, k)
}

/// Whether a rook on square `i` reaches square `j` when the squares of `b`
/// block its way: `j` is on the rook's file or rank, and no square of `b`
/// lies strictly between the two.
pub open spec fn rook_sees(i: int, j: int, b: u64) -> bool {
    ||| (j % 8 == i % 8 && i < j && file_clear(b, i, j))
    ||| (j % 8 == i % 8 && j < i && file_clear(b, j, i))
    ||| (j / 8 == i / 8 && i < j && rank_clear(b, i, j))
    ||| (j / 8 == i / 8 && j < i && rank_clear(b, j, i))
}

/// A bit of a conjunction of words is set where it is set in both.
proof fn lemma_and_bit(x: u64, y: u64, k: int)
    requires
        0 <= k < 64,
    ensures
        bit(x & y, k) == (bit(x, k) && bit(y, k)),
{
    let u = k as u64;
    assert((((x & y) >> u) & 1 == 1) == ((x >> u) & 1 == 1 && (y >> u) & 1 == 1)) by (bit_vector)
        requires
            u < 64,
    ;
}

/// Two words have no common bit exactly when their conjunction is zero.
proof fn lemma_and_zero(x: u64, m: u64)
    ensures
        (x & m == 0) == (forall|k: int| 0 <= k < 64 ==> !(#[trigger] bit(x, k) && bit(m, k))),
{
    if x & m == 0 {
        assert forall|k: int| 0 <= k < 64 implies !(#[trigger] bit(x, k) && bit(m, k)) by {
            lemma_and_bit(x, m, k);
            let u = k as u64;
            assert((0u64 >> u) & 1 == 0) by (bit_vector);
        }
    }
    if forall|k: int| 0 <= k < 64 ==> !(#[trigger] bit(x, k) && bit(m, k)) {
        assert forall|k: int| 0 <= k < 64 implies bit(x & m, k) == bit(0u64, k) by {
            lemma_and_bit(x, m, k);
            let u = k as u64;
            assert((0u64 >> u) & 1 == 0) by (bit_vector);
        }
        lemma_bits_equal(x & m, 0);
    }
}

/// The squares of file `f` are those whose number is `f` modulo 8.
proof fn lemma_file_bit(f: int, j: int)
    requires
        0 <= f < 8,
        0 <= j < 64,
    ensures
        bit(file_bits(f), j) == (j % 8 == f),
{
    let g = f as u64;
    let v = j as u64;
    assert((((0x0101010101010101u64 << g) >> v) & 1 == 1) == (v % 8 == g)) by (bit_vector)
        requires
            g < 8,
            v < 64,
    ;
}

/// The squares strictly between `p` and `j` in number.
proof fn lemma_between_bit(p: int, j: int, k: int)
    requires
        0 <= p < 64,
        0 <= j < 64,
        0 <= k < 64,
    ensures
        bit(strictly_between(p as u64, j as u64), k) == (p < k < j),
{
    let a = p as u64;
    let c = j as u64;
    let u = k as u64;
    assert(((strictly_between(a, c) >> u) & 1 == 1) == (a < u && u < c)) by (bit_vector)
        requires
            a < 64,
            c < 64,
            u < 64,
    ;
}

/// The upward slide of a rook reaches the squares above it on its file with
/// no blocker strictly between.
pub proof fn lemma_rook_up(i: int, j: int, b: u64)
    requires
        0 <= i < 64,
        0 <= j < 64,
    ensures
        bit(rook_up(i, b), j) == (j % 8 == i % 8 && i < j && file_clear(b, i, j)),
{
    let line = file_bits(i % 8);
    lemma_slide_up_bit(line, i as u64, b, j as u64);
    lemma_file_bit(i % 8, j);
    lemma_and_zero(b & line, strictly_between(i as u64, j as u64));
    assert((b & line & strictly_between(i as u64, j as u64)) == ((b & line) & strictly_between(
        i as u64,
        j as u64,
    )));
    if j % 8 == i % 8 && i < j {
        if file_clear(b, i, j) {
            assert forall|k: int| 0 <= k < 64 implies !(#[trigger] bit(b & line, k) && bit(
                strictly_between(i as u64, j as u64),
                k,
            )) by {
                lemma_and_bit(b, line, k);
                lemma_file_bit(i % 8, k);
                lemma_between_bit(i, j, k);
            }
        } else {
            let k = choose|k: int| i < k < j && k % 8 == i % 8 && #[trigger] bit(b, k);
            lemma_and_bit(b, line, k);
            lemma_file_bit(i % 8, k);
            lemma_between_bit(i, j, k);
        }
    }
}

/// A bit of a disjunction of words is set where it is set in either.
proof fn lemma_or_bit(x: u64, y: u64, k: int)
    requires
        0 <= k < 64,
    ensures
        bit(x | y, k) == (bit(x, k) || bit(y, k)),
{
    let u = k as u64;
    assert((((x | y) >> u) & 1 == 1) == ((x >> u) & 1 == 1 || (y >> u) & 1 == 1)) by (bit_vector)
        requires
            u < 64,
    ;
}

/// The file and rank of the horizontal mirror of square `x`.
proof fn lemma_mirror_h_coords(x: int)
    requires
        0 <= x < 64,
    ensures
        mirror_h_index(x) % 8 == x % 8,
        mirror_h_index(x) / 8 == 7 - x / 8,
        x == 8 * (x / 8) + x % 8,
{
}

/// A stretch of a file is clear in the horizontally mirrored board exactly
/// when the mirrored stretch is clear in the board.
#[verifier::rlimit(40)]
proof fn lemma_file_clear_mirror_h(b: u64, lo: int, hi: int)
    requires
        0 <= lo < hi < 64,
        lo % 8 == hi % 8,
    ensures
        file_clear(mirror_h_spec(b), mirror_h_index(hi), mirror_h_index(lo)) == file_clear(b, lo, hi),
{
    let mb = mirror_h_spec(b);
    let mlo = mirror_h_index(lo);
    let mhi = mirror_h_index(hi);
    lemma_mirror_h_coords(lo);
    lemma_mirror_h_coords(hi);
    lemma_mirror_h_coords(mlo);
    lemma_mirror_h_coords(mhi);
    if file_clear(b, lo, hi) {
        assert forall|k: int| mhi < k < mlo && k % 8 == mhi % 8 implies !#[trigger] bit(mb, k) by {
            lemma_mirror_h_coords(k);
            let k2 = mirror_h_index(k);
            lemma_mirror_h_coords(k2);
            lemma_mirror_h_bit(b, k);
            assert(mhi / 8 < k / 8 < mlo / 8);
            assert(lo / 8 < k2 / 8 < hi / 8);
            assert(lo < k2 < hi && k2 % 8 == lo % 8);
        }
    }
    if file_clear(mb, mhi, mlo) {
        assert forall|k: int| lo < k < hi && k % 8 == lo % 8 implies !#[trigger] bit(b, k) by {
            lemma_mirror_h_coords(k);
            let k2 = mirror_h_index(k);
            lemma_mirror_h_coords(k2);
            lemma_square_transforms_involutive(k);
            lemma_mirror_h_bit(b, k2);
            assert(lo / 8 < k / 8 < hi / 8);
            assert(mhi / 8 < k2 / 8 < mlo / 8);
            assert(mhi < k2 < mlo && k2 % 8 == mhi % 8);
            assert(!bit(mb, k2));
        }
    }
}

/// The file and rank of the diagonal mirror of square `x`.
proof fn lemma_mirror_d_coords(x: int)
    requires
        0 <= x < 64,
    ensures
        mirror_d_index(x) % 8 == x / 8,
        mirror_d_index(x) / 8 == x % 8,
        x == 8 * (x / 8) + x % 8,
{
}

/// A stretch of a file of the board mirrored in the diagonal is clear
/// exactly when the stretch of the rank it comes from is clear.
#[verifier::rlimit(40)]
proof fn lemma_file_clear_mirror_d(b: u64, lo: int, hi: int)
    requires
        0 <= lo < hi < 64,
        lo / 8 == hi / 8,
    ensures
        file_clear(mirror_d_spec(b), mirror_d_index(lo), mirror_d_index(hi)) == rank_clear(b, lo, hi),
{
    let mb = mirror_d_spec(b);
    let mlo = mirror_d_index(lo);
    let mhi = mirror_d_index(hi);
    lemma_mirror_d_coords(lo);
    lemma_mirror_d_coords(hi);
    lemma_mirror_d_coords(mlo);
    lemma_mirror_d_coords(mhi);
    if rank_clear(b, lo, hi) {
        assert forall|k: int| mlo < k < mhi && k % 8 == mlo % 8 implies !#[trigger] bit(mb, k) by {
            lemma_mirror_d_coords(k);
            let k2 = mirror_d_index(k);
            lemma_mirror_d_coords(k2);
            lemma_mirror_d_bit(b, k);
            assert(mlo / 8 < k / 8 < mhi / 8);
            assert(lo % 8 < k2 % 8 < hi % 8);
            assert(lo < k2 < hi && k2 / 8 == lo / 8);
        }
    }
    if file_clear(mb, mlo, mhi) {
        assert forall|k: int| lo < k < hi && k / 8 == lo / 8 implies !#[trigger] bit(b, k) by {
            lemma_mirror_d_coords(k);
            let k2 = mirror_d_index(k);
            lemma_mirror_d_coords(k2);
            lemma_square_transforms_involutive(k);
            lemma_mirror_d_bit(b, k2);
            assert(lo % 8 < k % 8 < hi % 8);
            assert(mlo / 8 < k2 / 8 < mhi / 8);
            assert(mlo < k2 < mhi && k2 % 8 == mlo % 8);
            assert(!bit(mb, k2));
        }
    }
}

/// The rook's reach is the set of squares it sees: along its file and rank,
/// up to and including the first square of the blockers in each direction.
pub proof fn lemma_rook_reach(i: int, j: int, b: u64)
    requires
        0 <= i < 64,
        0 <= j < 64,
    ensures
        bit(rook_reach(i, b), j) == rook_sees(i, j, b),
{
    let mh = mirror_h_index(i);
    let md = mirror_d_index(i);
    let mhd = mirror_h_index(md);
    let t1 = rook_up(i, b);
    let t2 = mirror_h_spec(rook_up(mh, mirror_h_spec(b)));
    let t3 = mirror_d_spec(rook_up(md, mirror_d_spec(b)));
    let r4 = rook_up(mhd, mirror_h_spec(mirror_d_spec(b)));
    let t4 = mirror_d_spec(mirror_h_spec(r4));
    lemma_or_bit(t1 | t2 | t3, t4, j);
    lemma_or_bit(t1 | t2, t3, j);
    lemma_or_bit(t1, t2, j);
    lemma_square_transforms_involutive(i);
    lemma_square_transforms_involutive(j);
    lemma_square_transforms_involutive(md);
    let jh = mirror_h_index(j);
    let jd = mirror_d_index(j);
    let jhd = mirror_h_index(jd);
    lemma_square_transforms_involutive(jd);
    // upwards
    lemma_rook_up(i, j, b);
    // downwards
    lemma_mirror_h_bit(rook_up(mh, mirror_h_spec(b)), j);
    lemma_rook_up(mh, jh, mirror_h_spec(b));
    if j % 8 == i % 8 && j < i {
        lemma_file_clear_mirror_h(b, j, i);
    }
    // along the rank, towards the H file
    lemma_mirror_d_bit(rook_up(md, mirror_d_spec(b)), j);
    lemma_rook_up(md, jd, mirror_d_spec(b));
    if j / 8 == i / 8 && i < j {
        lemma_file_clear_mirror_d(b, i, j);
    }
    // along the rank, towards the A file
    lemma_mirror_d_bit(mirror_h_spec(r4), j);
    lemma_mirror_h_bit(r4, jd);
    lemma_rook_up(mhd, jhd, mirror_h_spec(mirror_d_spec(b)));
    if j / 8 == i / 8 && j < i {
        lemma_file_clear_mirror_h(mirror_d_spec(b), jd, md);
        lemma_file_clear_mirror_d(b, j, i);
    }
}

/// Whether squares `a` and `c` share an A1-H8 diagonal.
pub open spec fn same_diagonal(a: int, c: int) -> bool {
    a % 8 - a / 8 == c % 8 - c / 8
}

/// Whether squares `a` and `c` share an A8-H1 anti-diagonal.
pub open spec fn same_antidiagonal(a: int, c: int) -> bool {
    a % 8 + a / 8 == c % 8 + c / 8
}

/// Whether no square of `b` on the diagonal of `lo` lies strictly between `lo` and `hi`.
pub open spec fn diagonal_clear(b: u64, lo: int, hi: int) -> bool {
    forall|k: int| lo < k < hi && same_diagonal(k, lo) ==> !#[trigger] bit(b, k)
}

/// Whether no square of `b` on the anti-diagonal of `lo` lies strictly between `lo` and `hi`.
pub open spec fn antidiagonal_clear(b: u64, lo: int, hi: int) -> bool {
    forall|k: int| lo < k < hi && same_antidiagonal(k, lo) ==> !#[trigger] bit(b, k)
}

/// Whether a bishop on square `i` reaches square `j` when the squares of `b`
/// block its way: `j` is on one of the bishop's diagonals, and no square of
/// `b` lies strictly between the two.
pub open spec fn bishop_sees(i: int, j: int, b: u64) -> bool {
    ||| (same_diagonal(j, i) && i < j && diagonal_clear(b, i, j))
    ||| (same_diagonal(j, i) && j < i && diagonal_clear(b, j, i))
    ||| (same_antidiagonal(j, i) && i < j && antidiagonal_clear(b, i, j))
    ||| (same_antidiagonal(j, i) && j < i && antidiagonal_clear(b, j, i))
}

/// The upward slide of a bishop reaches the squares above it on its A1-H8
/// diagonal with no blocker strictly between.
proof fn lemma_bishop_up(i: int, j: int, b: u64)
    requires
        0 <= i < 64,
        0 <= j < 64,
    ensures
        bit(bishop_up(i, b), j) == (same_diagonal(j, i) && i < j && diagonal_clear(b, i, j)),
{
    let line = diagonal_bits(i % 8, i / 8);
    lemma_slide_up_bit(line, i as u64, b, j as u64);
    lemma_diagonal_bit(i % 8, i / 8, j);
    lemma_and_zero(b & line, strictly_between(i as u64, j as u64));
    if same_diagonal(j, i) && i < j {
        if diagonal_clear(b, i, j) {
            assert forall|k: int| 0 <= k < 64 implies !(#[trigger] bit(b & line, k) && bit(
                strictly_between(i as u64, j as u64),
                k,
            )) by {
                lemma_and_bit(b, line, k);
                lemma_diagonal_bit(i % 8, i / 8, k);
                lemma_between_bit(i, j, k);
            }
        } else {
            let k = choose|k: int| i < k < j && same_diagonal(k, i) && #[trigger] bit(b, k);
            lemma_and_bit(b, line, k);
            lemma_diagonal_bit(i % 8, i / 8, k);
            lemma_between_bit(i, j, k);
        }
    }
}

/// The reflection in the A8-H1 diagonal, as three mirrors.
pub open spec fn reflect_anti(x: int) -> int {
    mirror_h_index(mirror_d_index(mirror_h_index(x)))
}

/// The quarter turn of the board, as two mirrors.
pub open spec fn quarter_turn(x: int) -> int {
    mirror_h_index(mirror_d_index(x))
}

/// The quarter turn back, as two mirrors.
pub open spec fn quarter_turn_back(x: int) -> int {
    mirror_d_index(mirror_h_index(x))
}

/// Files and ranks of the squares moved by the composed mirrors.
proof fn lemma_turn_coords(x: int)
    requires
        0 <= x < 64,
    ensures
        0 <= reflect_anti(x) < 64,
        reflect_anti(x) % 8 == 7 - x / 8,
        reflect_anti(x) / 8 == 7 - x % 8,
        reflect_anti(reflect_anti(x)) == x,
        0 <= quarter_turn(x) < 64,
        quarter_turn(x) % 8 == x / 8,
        quarter_turn(x) / 8 == 7 - x % 8,
        0 <= quarter_turn_back(x) < 64,
        quarter_turn_back(x) % 8 == 7 - x / 8,
        quarter_turn_back(x) / 8 == x % 8,
        quarter_turn(quarter_turn_back(x)) == x,
        x == 8 * (x / 8) + x % 8,
{
    lemma_square_transforms_involutive(x);
    lemma_mirror_h_coords(x);
    lemma_mirror_d_coords(x);
    let a = mirror_h_index(x);
    lemma_square_transforms_involutive(a);
    lemma_mirror_d_coords(a);
    let c = mirror_d_index(a);
    lemma_square_transforms_involutive(c);
    lemma_mirror_h_coords(c);
    let e = mirror_d_index(x);
    lemma_square_transforms_involutive(e);
    lemma_mirror_h_coords(e);
    let t = reflect_anti(x);
    lemma_square_transforms_involutive(t);
    lemma_mirror_h_coords(t);
    let t1 = mirror_h_index(t);
    lemma_square_transforms_involutive(t1);
    lemma_mirror_d_coords(t1);
    let t2 = mirror_d_index(t1);
    lemma_square_transforms_involutive(t2);
    lemma_mirror_h_coords(t2);
    let q = quarter_turn_back(x);
    lemma_square_transforms_involutive(q);
    lemma_mirror_d_coords(q);
    let q1 = mirror_d_index(q);
    lemma_square_transforms_involutive(q1);
    lemma_mirror_h_coords(q1);
    assert(reflect_anti(reflect_anti(x)) == 8 * (reflect_anti(reflect_anti(x)) / 8) + reflect_anti(
        reflect_anti(x),
    ) % 8);
    assert(quarter_turn(q) == 8 * (quarter_turn(q) / 8) + quarter_turn(q) % 8);
}

/// Squares of the boards moved by the composed mirrors.
proof fn lemma_turn_bits(b: u64, k: int)
    requires
        0 <= k < 64,
    ensures
        bit(mirror_h_spec(mirror_d_spec(mirror_h_spec(b))), k) == bit(b, reflect_anti(k)),
        bit(mirror_h_spec(mirror_d_spec(b)), k) == bit(b, quarter_turn_back(k)),
        bit(mirror_d_spec(mirror_h_spec(b)), k) == bit(b, quarter_turn(k)),
{
    lemma_square_transforms_involutive(k);
    let h = mirror_h_index(k);
    let d = mirror_d_index(k);
    lemma_square_transforms_involutive(h);
    lemma_square_transforms_involutive(d);
    lemma_mirror_h_bit(mirror_d_spec(mirror_h_spec(b)), k);
    lemma_mirror_d_bit(mirror_h_spec(b), h);
    lemma_mirror_h_bit(b, mirror_d_index(h));
    lemma_mirror_h_bit(mirror_d_spec(b), k);
    lemma_mirror_d_bit(b, h);
    lemma_mirror_d_bit(mirror_h_spec(b), k);
    lemma_mirror_h_bit(b, d);
}

/// A stretch of a diagonal is clear in the board reflected in the A8-H1
/// diagonal exactly when the reflected stretch is clear in the board.
#[verifier::rlimit(40)]
proof fn lemma_diagonal_clear_reflect(b: u64, lo: int, hi: int)
    requires
        0 <= lo < hi < 64,
        same_diagonal(lo, hi),
    ensures
        diagonal_clear(mirror_h_spec(mirror_d_spec(mirror_h_spec(b))), reflect_anti(hi), reflect_anti(lo))
            == diagonal_clear(b, lo, hi),
{
    let rb = mirror_h_spec(mirror_d_spec(mirror_h_spec(b)));
    let rlo = reflect_anti(lo);
    let rhi = reflect_anti(hi);
    lemma_turn_coords(lo);
    lemma_turn_coords(hi);
    if diagonal_clear(b, lo, hi) {
        assert forall|k: int| rhi < k < rlo && same_diagonal(k, rhi) implies !#[trigger] bit(rb, k) by {
            lemma_turn_coords(k);
            lemma_turn_bits(b, k);
            let k2 = reflect_anti(k);
            lemma_turn_coords(k2);
            assert(rhi % 8 < k % 8 < rlo % 8);
            assert(lo % 8 < k2 % 8 < hi % 8);
            assert(lo < k2 < hi && same_diagonal(k2, lo));
        }
    }
    if diagonal_clear(rb, rhi, rlo) {
        assert forall|k: int| lo < k < hi && same_diagonal(k, lo) implies !#[trigger] bit(b, k) by {
            lemma_turn_coords(k);
            let k2 = reflect_anti(k);
            lemma_turn_coords(k2);
            lemma_turn_bits(b, k2);
            assert(lo % 8 < k % 8 < hi % 8);
            assert(rhi % 8 < k2 % 8 < rlo % 8);
            assert(rhi < k2 < rlo && same_diagonal(k2, rhi));
            assert(!bit(rb, k2));
        }
    }
}

/// A stretch of a diagonal of the horizontally mirrored board is clear
/// exactly when the stretch of the anti-diagonal it comes from is clear.
#[verifier::rlimit(40)]
proof fn lemma_diagonal_clear_mirror_h(b: u64, lo: int, hi: int)
    requires
        0 <= lo < hi < 64,
        same_antidiagonal(lo, hi),
    ensures
        diagonal_clear(mirror_h_spec(b), mirror_h_index(hi), mirror_h_index(lo))
            == antidiagonal_clear(b, lo, hi),
{
    let mb = mirror_h_spec(b);
    let mlo = mirror_h_index(lo);
    let mhi = mirror_h_index(hi);
    lemma_mirror_h_coords(lo);
    lemma_mirror_h_coords(hi);
    lemma_mirror_h_coords(mlo);
    lemma_mirror_h_coords(mhi);
    if antidiagonal_clear(b, lo, hi) {
        assert forall|k: int| mhi < k < mlo && same_diagonal(k, mhi) implies !#[trigger] bit(mb, k) by {
            lemma_mirror_h_coords(k);
            let k2 = mirror_h_index(k);
            lemma_mirror_h_coords(k2);
            lemma_mirror_h_bit(b, k);
            assert(mhi / 8 < k / 8 < mlo / 8);
            assert(lo / 8 < k2 / 8 < hi / 8);
            assert(lo < k2 < hi && same_antidiagonal(k2, lo));
        }
    }
    if diagonal_clear(mb, mhi, mlo) {
        assert forall|k: int| lo < k < hi && same_antidiagonal(k, lo) implies !#[trigger] bit(b, k) by {
            lemma_mirror_h_coords(k);
            let k2 = mirror_h_index(k);
            lemma_mirror_h_coords(k2);
            lemma_square_transforms_involutive(k);
            lemma_mirror_h_bit(b, k2);
            assert(lo / 8 < k / 8 < hi / 8);
            assert(mhi / 8 < k2 / 8 < mlo / 8);
            assert(mhi < k2 < mlo && same_diagonal(k2, mhi));
            assert(!bit(mb, k2));
        }
    }
}

/// A stretch of a diagonal of the board turned a quarter is clear exactly
/// when the stretch of the anti-diagonal it comes from is clear.
#[verifier::rlimit(40)]
proof fn lemma_diagonal_clear_turn(b: u64, lo: int, hi: int)
    requires
        0 <= lo < hi < 64,
        same_antidiagonal(lo, hi),
    ensures
        diagonal_clear(mirror_h_spec(mirror_d_spec(b)), quarter_turn(lo), quarter_turn(hi))
            == antidiagonal_clear(b, lo, hi),
{
    let tb = mirror_h_spec(mirror_d_spec(b));
    let tlo = quarter_turn(lo);
    let thi = quarter_turn(hi);
    lemma_turn_coords(lo);
    lemma_turn_coords(hi);
    if antidiagonal_clear(b, lo, hi) {
        assert forall|k: int| tlo < k < thi && same_diagonal(k, tlo) implies !#[trigger] bit(tb, k) by {
            lemma_turn_coords(k);
            lemma_turn_bits(b, k);
            let k2 = quarter_turn_back(k);
            lemma_turn_coords(k2);
            assert(tlo / 8 < k / 8 < thi / 8);
            assert(lo / 8 < k2 / 8 < hi / 8);
            assert(lo < k2 < hi && same_antidiagonal(k2, lo));
        }
    }
    if diagonal_clear(tb, tlo, thi) {
        assert forall|k: int| lo < k < hi && same_antidiagonal(k, lo) implies !#[trigger] bit(b, k) by {
            lemma_turn_coords(k);
            let k2 = quarter_turn(k);
            lemma_turn_coords(k2);
            lemma_turn_bits(b, k2);
            assert(quarter_turn_back(k2) == k) by {
                let k3 = quarter_turn_back(k2);
                lemma_turn_coords(k3);
                assert(k3 % 8 == k % 8 && k3 / 8 == k / 8);
            }
            assert(lo / 8 < k / 8 < hi / 8);
            assert(tlo / 8 < k2 / 8 < thi / 8);
            assert(tlo < k2 < thi && same_diagonal(k2, tlo));
            assert(!bit(tb, k2));
        }
    }
}

/// The bishop's reach is the set of squares it sees: along its two
/// diagonals, up to and including the first square of the blockers in each
/// direction.
pub proof fn lemma_bishop_reach(i: int, j: int, b: u64)
    requires
        0 <= i < 64,
        0 <= j < 64,
    ensures
        bit(bishop_reach(i, b), j) == bishop_sees(i, j, b),
{
    let back = reflect_anti(i);
    let anti = mirror_h_index(i);
    let back_anti = quarter_turn(i);
    let r2 = bishop_up(back, mirror_h_spec(mirror_d_spec(mirror_h_spec(b))));
    let r3 = bishop_up(anti, mirror_h_spec(b));
    let r4 = bishop_up(back_anti, mirror_h_spec(mirror_d_spec(b)));
    let t1 = bishop_up(i, b);
    let t2 = mirror_h_spec(mirror_d_spec(mirror_h_spec(r2)));
    let t3 = mirror_h_spec(r3);
    let t4 = mirror_d_spec(mirror_h_spec(r4));
    lemma_or_bit(t1 | t2 | t3, t4, j);
    lemma_or_bit(t1 | t2, t3, j);
    lemma_or_bit(t1, t2, j);
    lemma_turn_coords(i);
    lemma_turn_coords(j);
    lemma_mirror_h_coords(i);
    lemma_mirror_h_coords(j);
    lemma_square_transforms_involutive(i);
    lemma_square_transforms_involutive(j);
    // up the A1-H8 diagonal
    lemma_bishop_up(i, j, b);
    // down the A1-H8 diagonal
    lemma_turn_bits(r2, j);
    lemma_bishop_up(back, reflect_anti(j), mirror_h_spec(mirror_d_spec(mirror_h_spec(b))));
    if same_diagonal(j, i) && j < i {
        lemma_diagonal_clear_reflect(b, j, i);
    }
    // down the A8-H1 anti-diagonal
    lemma_mirror_h_bit(r3, j);
    lemma_bishop_up(anti, mirror_h_index(j), mirror_h_spec(b));
    if same_antidiagonal(j, i) && j < i {
        lemma_diagonal_clear_mirror_h(b, j, i);
    }
    // up the A8-H1 anti-diagonal
    lemma_turn_bits(r4, j);
    lemma_bishop_up(back_anti, quarter_turn(j), mirror_h_spec(mirror_d_spec(b)));
    if same_antidiagonal(j, i) && i < j {
        lemma_diagonal_clear_turn(b, i, j);
    }
}

} // verus!
