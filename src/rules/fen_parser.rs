//! Parses FEN notation into game state.

use vstd::prelude::*;
use vstd::string::StringSliceAdditionalSpecFns;

use crate::board::bitboard::{single, BitBoard};
use crate::board::piece::Piece;
use crate::board::player::Player;
use crate::board::square::Square;
use crate::rules::castle_rights::CastleRights;
use crate::rules::game_state::GameState;
use crate::rules::player_board::PlayerBoard;

verus! {

broadcast use crate::board::square::Square::lemma_at_index;

/// Why a FEN record could not be read.
#[derive(PartialEq, Eq, Structural, Clone, Copy, Debug)]
pub enum FenError {
    /// The record does not have exactly six space-separated fields.
    FieldCount,
    /// A rank of the piece placement does not cover eight squares, or there
    /// are more than eight ranks.
    RankLength,
    /// The piece placement holds a character that is no piece, digit or `/`.
    UnknownPiece,
    /// The piece placement does not cover the 64 squares.
    SquareCount,
    /// The active colour is neither `w` nor `b`.
    ActiveColor,
    /// The castling availability holds a character other than `KQkq`, or is empty.
    Castling,
    /// The en-passant field is neither `-` nor a square.
    EnPassant,
    /// A move counter is not a number, or the full-move number is zero.
    Number,
}

/// The fields of `b` separated by spaces, empty fields included.
pub open spec fn fields(b: Seq<u8>) -> Seq<Seq<u8>>
    decreases b.len(),
{
    if b.len() == 0 {
        seq![Seq::empty()]
    } else {
        let prev = fields(b.drop_last());
        if b.last() == 32u8 {
            prev.push(Seq::empty())
        } else {
            prev.update(prev.len() - 1, prev.last().push(b.last()))
        }
    }
}

/// The player and piece that a FEN piece letter stands for: upper case for
/// White, lower case for Black.
pub open spec fn fen_piece(c: u8) -> Option<(Player, Piece)> {
    let player = if c < 97 { Player::White } else { Player::Black };
    let l = if c < 97 { c + 32 } else { c as int };
    if c != 80 && c != 78 && c != 66 && c != 82 && c != 81 && c != 75 && c != 112 && c != 110 && c
        != 98 && c != 114 && c != 113 && c != 107 {
        None
    } else if l == 112 {
        Some((player, Piece::Pawn))
    } else if l == 110 {
        Some((player, Piece::Knight))
    } else if l == 98 {
        Some((player, Piece::Bishop))
    } else if l == 114 {
        Some((player, Piece::Rook))
    } else if l == 113 {
        Some((player, Piece::Queen))
    } else {
        Some((player, Piece::King))
    }
}

/// The walk through a piece placement: the number of squares covered, the
/// number of rank separators seen, and the two boards.
pub struct Placement {
    /// Squares covered so far, in FEN order (A8 first).
    pub covered: int,
    /// Rank separators seen so far.
    pub separators: int,
    /// The white pieces placed so far.
    pub white: PlayerBoard,
    /// The black pieces placed so far.
    pub black: PlayerBoard,
}

/// The board with one more piece of the given kind on square `sq`.
pub open spec fn with_piece_on(board: PlayerBoard, piece: Piece, sq: int) -> PlayerBoard {
    board.replace(piece, board.bits(piece) | single(sq))
}

/// One step of the walk through a piece placement, on character `c`.
pub open spec fn placement_step(acc: Result<Placement, FenError>, c: u8) -> Result<
    Placement,
    FenError,
> {
    match acc {
        Err(e) => Err(e),
        Ok(p) => {
            let rank_end = 8 * (p.separators + 1);
            if c == 47 {
                if p.covered == rank_end && p.separators < 7 {
                    Ok(Placement { separators: p.separators + 1, ..p })
                } else {
                    Err(FenError::RankLength)
                }
            } else if 49 <= c <= 56 {
                if p.covered + (c - 48) <= rank_end {
                    Ok(Placement { covered: p.covered + (c - 48), ..p })
                } else {
                    Err(FenError::RankLength)
                }
            } else {
                match fen_piece(c) {
                    None => Err(FenError::UnknownPiece),
                    Some((player, piece)) => if p.covered < rank_end {
                        let sq = 8 * (7 - p.covered / 8) + p.covered % 8;
                        Ok(
                            match player {
                                Player::White => Placement {
                                    covered: p.covered + 1,
                                    white: with_piece_on(p.white, piece, sq),
                                    ..p
                                },
                                Player::Black => Placement {
                                    covered: p.covered + 1,
                                    black: with_piece_on(p.black, piece, sq),
                                    ..p
                                },
                            },
                        )
                    } else {
                        Err(FenError::RankLength)
                    },
                }
            }
        },
    }
}

/// A board without pieces.
pub open spec fn no_pieces() -> PlayerBoard {
    PlayerBoard {
        pawns: BitBoard(0),
        rooks: BitBoard(0),
        knights: BitBoard(0),
        bishops: BitBoard(0),
        queens: BitBoard(0),
        king: BitBoard(0),
    }
}

/// The walk through the characters of `b`.
pub open spec fn placement_walk(b: Seq<u8>) -> Result<Placement, FenError>
    decreases b.len(),
{
    if b.len() == 0 {
        Ok(Placement { covered: 0, separators: 0, white: no_pieces(), black: no_pieces() })
    } else {
        placement_step(placement_walk(b.drop_last()), b.last())
    }
}

/// The white and black boards of a piece placement: eight ranks of eight
/// squares each, from rank 8 down to rank 1.
pub open spec fn placement_spec(b: Seq<u8>) -> Result<(PlayerBoard, PlayerBoard), FenError> {
    match placement_walk(b) {
        Err(e) => Err(e),
        Ok(p) => if p.covered == 64 && p.separators == 7 {
            Ok((p.white, p.black))
        } else if p.covered != 8 * (p.separators + 1) {
            Err(FenError::RankLength)
        } else {
            Err(FenError::SquareCount)
        },
    }
}

/// The player to move given by the active colour field.
pub open spec fn active_spec(b: Seq<u8>) -> Result<Player, FenError> {
    if b == seq![119u8] {
        Ok(Player::White)
    } else if b == seq![98u8] {
        Ok(Player::Black)
    } else {
        Err(FenError::ActiveColor)
    }
}

/// The castle rights of White and Black after reading the castling letters of `b`.
pub open spec fn castling_walk(b: Seq<u8>) -> Result<(CastleRights, CastleRights), FenError>
    decreases b.len(),
{
    if b.len() == 0 {
        Ok((CastleRights::Neither, CastleRights::Neither))
    } else {
        match castling_walk(b.drop_last()) {
            Err(e) => Err(e),
            Ok((w, k)) => {
                let c = b.last();
                if c == 75 {
                    Ok((w.plus_king_side(), k))
                } else if c == 81 {
                    Ok((w.plus_queen_side(), k))
                } else if c == 107 {
                    Ok((w, k.plus_king_side()))
                } else if c == 113 {
                    Ok((w, k.plus_queen_side()))
                } else {
                    Err(FenError::Castling)
                }
            },
        }
    }
}

/// The castle rights of White and Black given by the castling field: `-` for
/// none, else letters `K`, `Q` (White) and `k`, `q` (Black).
pub open spec fn castling_spec(b: Seq<u8>) -> Result<(CastleRights, CastleRights), FenError> {
    if b == seq![45u8] {
        Ok((CastleRights::Neither, CastleRights::Neither))
    } else if b.len() == 0 {
        Err(FenError::Castling)
    } else {
        castling_walk(b)
    }
}

/// The number of the square named by a file letter (either case) and a rank digit.
pub open spec fn square_name_spec(b: Seq<u8>) -> Option<int> {
    if b.len() != 2 {
        None
    } else {
        let f = if 97 <= b[0] <= 104 {
            b[0] - 97
        } else if 65 <= b[0] <= 72 {
            b[0] - 65
        } else {
            -1
        };
        let r = b[1] - 49;
        if f < 0 || r < 0 || r > 7 {
            None
        } else {
            Some(8 * r + f)
        }
    }
}

/// The en-passant square given by the en-passant field.
pub open spec fn en_passant_spec(b: Seq<u8>) -> Result<Option<Square>, FenError> {
    if b == seq![45u8] {
        Ok(None)
    } else {
        match square_name_spec(b) {
            Some(i) => Ok(Some(Square::at(i))),
            None => Err(FenError::EnPassant),
        }
    }
}

/// The value of the decimal digits of `b`.
pub open spec fn decimal(b: Seq<u8>) -> int
    decreases b.len(),
{
    if b.len() == 0 {
        0
    } else {
        10 * decimal(b.drop_last()) + (b.last() - 48)
    }
}

/// The number written in decimal digits in `b`, if it has at least one digit,
/// only digits, and fits a `usize`.
pub open spec fn number_spec(b: Seq<u8>) -> Result<usize, FenError> {
    if b.len() > 0 && (forall|i: int| 0 <= i < b.len() ==> 48 <= #[trigger] b[i] <= 57) && decimal(
        b,
    ) <= usize::MAX {
        Ok(decimal(b) as usize)
    } else {
        Err(FenError::Number)
    }
}

/// The game state of a FEN record, or the first error met, field by field.
pub open spec fn parse_fen_spec(b: Seq<u8>) -> Result<GameState, FenError> {
    let f = fields(b);
    if f.len() != 6 {
        Err(FenError::FieldCount)
    } else {
        match placement_spec(f[0]) {
            Err(e) => Err(e),
            Ok((white, black)) => match active_spec(f[1]) {
                Err(e) => Err(e),
                Ok(active) => match castling_spec(f[2]) {
                    Err(e) => Err(e),
                    Ok((wc, bc)) => match en_passant_spec(f[3]) {
                        Err(e) => Err(e),
                        Ok(ep) => match number_spec(f[4]) {
                            Err(e) => Err(e),
                            Ok(half) => match number_spec(f[5]) {
                                Err(e) => Err(e),
                                Ok(full) => if full == 0 {
                                    Err(FenError::Number)
                                } else {
                                    Ok(
                                        GameState {
                                            white_board: white,
                                            black_board: black,
                                            player_turn: active,
                                            en_passant: ep,
                                            white_castle_rights: wc,
                                            black_castle_rights: bc,
                                            draw_plies: half,
                                            full_turns: (full - 1) as usize,
                                        },
                                    )
                                },
                            },
                        },
                    },
                },
            },
        }
    }
}

/// An error in a prefix of the placement stays the result of the whole walk.
proof fn lemma_placement_error_stays(b: Seq<u8>, i: int, e: FenError)
    requires
        0 <= i <= b.len(),
        placement_walk(b.take(i)) == Err::<Placement, FenError>(e),
    ensures
        placement_walk(b) == Err::<Placement, FenError>(e),
    decreases b.len() - i,
{
    if i < b.len() {
        assert(b.take(i + 1).drop_last() =~= b.take(i));
        lemma_placement_error_stays(b, i + 1, e);
    } else {
        assert(b.take(i) =~= b);
    }
}

/// An error in a prefix of the castling letters stays the result of the whole walk.
proof fn lemma_castling_error_stays(b: Seq<u8>, i: int, e: FenError)
    requires
        0 <= i <= b.len(),
        castling_walk(b.take(i)) == Err::<(CastleRights, CastleRights), FenError>(e),
    ensures
        castling_walk(b) == Err::<(CastleRights, CastleRights), FenError>(e),
    decreases b.len() - i,
{
    if i < b.len() {
        assert(b.take(i + 1).drop_last() =~= b.take(i));
        lemma_castling_error_stays(b, i + 1, e);
    } else {
        assert(b.take(i) =~= b);
    }
}

/// Digits appended to a number only make it larger.
proof fn lemma_decimal_grows(b: Seq<u8>, i: int)
    requires
        0 <= i <= b.len(),
        forall|j: int| 0 <= j < b.len() ==> 48 <= #[trigger] b[j] <= 57,
    ensures
        decimal(b) >= decimal(b.take(i)) >= 0,
    decreases b.len(),
{
    if i == b.len() {
        assert(b.take(i) =~= b);
        if b.len() > 0 {
            lemma_decimal_grows(b.drop_last(), 0);
        } else {
            assert(decimal(b) == 0);
        }
    } else {
        lemma_decimal_grows(b.drop_last(), i);
        assert(b.drop_last().take(i) =~= b.take(i));
    }
}

/// Splits a record into its space-separated fields.
fn split_fields(b: &[u8]) -> (r: Vec<Vec<u8>>)
    ensures
        r@.len() == fields(b@).len(),
        forall|j: int| 0 <= j < r@.len() ==> #[trigger] r@[j]@ == fields(b@)[j],
{
    let mut out: Vec<Vec<u8>> = Vec::new();
    let mut current: Vec<u8> = Vec::new();
    let mut i: usize = 0;
    while i < b.len()
        invariant
            i <= b@.len(),
            out@.len() + 1 == fields(b@.take(i as int)).len(),
            forall|j: int| 0 <= j < out@.len() ==> #[trigger] out@[j]@ == fields(b@.take(i as int))[j],
            current@ == fields(b@.take(i as int)).last(),
        decreases b.len() - i,
    {
        assert(b@.take(i + 1).drop_last() =~= b@.take(i as int));
        if b[i] == 32 {
            out.push(current);
            current = Vec::new();
        } else {
            current.push(b[i]);
        }
        i = i + 1;
    }
    assert(b@.take(i as int) =~= b@);
    out.push(current);
    out
}

/// Parses the given FEN piece identifier.
fn parse_fen_piece(ch: u8) -> (r: Result<(Player, Piece), FenError>)
    ensures
        r == (match fen_piece(ch) {
            Some(x) => Ok(x),
            None => Err(FenError::UnknownPiece),
        }),
{
    match ch {
        80 => Ok((Player::White, Piece::Pawn)),
        78 => Ok((Player::White, Piece::Knight)),
        66 => Ok((Player::White, Piece::Bishop)),
        82 => Ok((Player::White, Piece::Rook)),
        81 => Ok((Player::White, Piece::Queen)),
        75 => Ok((Player::White, Piece::King)),
        112 => Ok((Player::Black, Piece::Pawn)),
        110 => Ok((Player::Black, Piece::Knight)),
        98 => Ok((Player::Black, Piece::Bishop)),
        114 => Ok((Player::Black, Piece::Rook)),
        113 => Ok((Player::Black, Piece::Queen)),
        107 => Ok((Player::Black, Piece::King)),
        _ => Err(FenError::UnknownPiece),
    }
}

/// Parses the piece placement part into the white and black boards.
fn parse_piece_placement(part: &Vec<u8>) -> (r: Result<(PlayerBoard, PlayerBoard), FenError>)
    ensures
        r == placement_spec(part@),
{
    let mut white = PlayerBoard::default();
    let mut black = PlayerBoard::default();
    let mut covered: u8 = 0;
    let mut separators: u8 = 0;
    let mut i: usize = 0;
    assert(white == no_pieces() && black == no_pieces());
    assert(part@.take(0) =~= Seq::<u8>::empty());
    while i < part.len()
        invariant
            i <= part@.len(),
            covered <= 8 * (separators + 1),
            separators <= 7,
            placement_walk(part@.take(i as int)) == Ok::<Placement, FenError>(
                Placement {
                    covered: covered as int,
                    separators: separators as int,
                    white,
                    black,
                },
            ),
        decreases part.len() - i,
    {
        let ch = part[i];
        assert(part@.take(i + 1).drop_last() =~= part@.take(i as int));
        assert(part@.take(i + 1).last() == ch);
        let rank_end = 8 * (separators + 1);
        if ch == 47 {
            if covered == rank_end && separators < 7 {
                separators = separators + 1;
            } else {
                proof { lemma_placement_error_stays(part@, i + 1, FenError::RankLength); }
                return Err(FenError::RankLength);
            }
        } else if 49 <= ch && ch <= 56 {
            if covered + (ch - 48) <= rank_end {
                covered = covered + (ch - 48);
            } else {
                proof { lemma_placement_error_stays(part@, i + 1, FenError::RankLength); }
                return Err(FenError::RankLength);
            }
        } else {
            match parse_fen_piece(ch) {
                Err(e) => {
                    proof { lemma_placement_error_stays(part@, i + 1, e); }
                    return Err(e);
                },
                Ok((player, piece)) => {
                    if covered < rank_end {
                        // FEN lists rank 8 first: mirror the running index to get the square.
                        let square = Square::new(covered).mirror_horizontal();
                        match player {
                            Player::White => {
                                white = white.with_piece(piece, white.piece(piece).set_square(square));
                            },
                            Player::Black => {
                                black = black.with_piece(piece, black.piece(piece).set_square(square));
                            },
                        }
                        covered = covered + 1;
                    } else {
                        proof { lemma_placement_error_stays(part@, i + 1, FenError::RankLength); }
                        return Err(FenError::RankLength);
                    }
                },
            }
        }
        i = i + 1;
    }
    assert(part@.take(i as int) =~= part@);
    if covered == 64 && separators == 7 {
        Ok((white, black))
    } else if covered != 8 * (separators + 1) {
        Err(FenError::RankLength)
    } else {
        Err(FenError::SquareCount)
    }
}

/// Parses the active colour part.
fn parse_active_color(part: &Vec<u8>) -> (r: Result<Player, FenError>)
    ensures
        r == active_spec(part@),
{
    if part.len() == 1 && part[0] == 119 {
        assert(part@ =~= seq![119u8]);
        Ok(Player::White)
    } else if part.len() == 1 && part[0] == 98 {
        assert(part@ =~= seq![98u8]);
        Ok(Player::Black)
    } else {
        proof {
            if part@ == seq![119u8] {
                assert(part@.len() == 1 && part@[0] == 119);
            }
            if part@ == seq![98u8] {
                assert(part@.len() == 1 && part@[0] == 98);
            }
        }
        Err(FenError::ActiveColor)
    }
}

/// Parses the castling availability part into White's and Black's rights.
fn parse_castling_ability(part: &Vec<u8>) -> (r: Result<(CastleRights, CastleRights), FenError>)
    ensures
        r == castling_spec(part@),
{
    if part.len() == 1 && part[0] == 45 {
        assert(part@ =~= seq![45u8]);
        return Ok((CastleRights::Neither, CastleRights::Neither));
    }
    proof {
        if part@ == seq![45u8] {
            assert(part@.len() == 1 && part@[0] == 45);
        }
    }
    if part.len() == 0 {
        return Err(FenError::Castling);
    }
    let mut white = CastleRights::Neither;
    let mut black = CastleRights::Neither;
    let mut i: usize = 0;
    assert(part@.take(0) =~= Seq::<u8>::empty());
    while i < part.len()
        invariant
            i <= part@.len(),
            part@.len() > 0,
            part@ != seq![45u8],
            castling_walk(part@.take(i as int)) == Ok::<(CastleRights, CastleRights), FenError>(
                (white, black),
            ),
        decreases part.len() - i,
    {
        let ch = part[i];
        assert(part@.take(i + 1).drop_last() =~= part@.take(i as int));
        assert(part@.take(i + 1).last() == ch);
        if ch == 75 {
            white = white.with_king_side();
        } else if ch == 81 {
            white = white.with_queen_side();
        } else if ch == 107 {
            black = black.with_king_side();
        } else if ch == 113 {
            black = black.with_queen_side();
        } else {
            proof {
                let t = part@.take(i + 1);
                assert(t.len() > 0);
                assert(castling_walk(t) == Err::<(CastleRights, CastleRights), FenError>(
                    FenError::Castling,
                ));
                lemma_castling_error_stays(part@, i + 1, FenError::Castling);
            }
            return Err(FenError::Castling);
        }
        i = i + 1;
    }
    assert(part@.take(i as int) =~= part@);
    Ok((white, black))
}

/// Reads a square name: a file letter (either case) and a rank digit.
fn parse_square_name(part: &[u8]) -> (r: Option<Square>)
    ensures
        r == (match square_name_spec(part@) {
            Some(i) => Some(Square::at(i)),
            None => None,
        }),
{
    if part.len() != 2 {
        return None;
    }
    let f = part[0];
    let r = part[1];
    let file: u8 = if 97 <= f && f <= 104 {
        f - 97
    } else if 65 <= f && f <= 72 {
        f - 65
    } else {
        return None;
    };
    if r < 49 || r > 56 {
        return None;
    }
    Some(Square::new(8 * (r - 49) + file))
}

/// Parses a square in text notation: a file letter `a`-`h` (either case)
/// followed by a rank digit `1`-`8`.
pub fn parse_square(text: &str) -> (r: Option<Square>)
    ensures
        r == (match square_name_spec(text.spec_bytes()) {
            Some(i) => Some(Square::at(i)),
            None => None,
        }),
{
    parse_square_name(text.as_bytes())
}

/// Parses the en-passant square part.
fn parse_en_passant(part: &Vec<u8>) -> (r: Result<Option<Square>, FenError>)
    ensures
        r == en_passant_spec(part@),
{
    if part.len() == 1 && part[0] == 45 {
        assert(part@ =~= seq![45u8]);
        return Ok(None);
    }
    proof {
        if part@ == seq![45u8] {
            assert(part@.len() == 1 && part@[0] == 45);
        }
    }
    match parse_square_name(part.as_slice()) {
        Some(square) => Ok(Some(square)),
        None => Err(FenError::EnPassant),
    }
}

/// Parses a half-move or full-move counter.
fn parse_number(part: &Vec<u8>) -> (r: Result<usize, FenError>)
    ensures
        r == number_spec(part@),
{
    if part.len() == 0 {
        return Err(FenError::Number);
    }
    let mut value: usize = 0;
    let mut i: usize = 0;
    assert(part@.take(0) =~= Seq::<u8>::empty());
    while i < part.len()
        invariant
            0 < part@.len(),
            i <= part@.len(),
            value == decimal(part@.take(i as int)),
            forall|j: int| 0 <= j < i ==> 48 <= #[trigger] part@[j] <= 57,
        decreases part.len() - i,
    {
        let ch = part[i];
        assert(part@.take(i + 1).drop_last() =~= part@.take(i as int));
        if ch < 48 || ch > 57 {
            return Err(FenError::Number);
        }
        let digit = (ch - 48) as usize;
        if value > (usize::MAX - digit) / 10 {
            proof {
                if forall|j: int| 0 <= j < part@.len() ==> 48 <= #[trigger] part@[j] <= 57 {
                    lemma_decimal_grows(part@, i + 1);
                }
            }
            return Err(FenError::Number);
        }
        value = value * 10 + digit;
        i = i + 1;
    }
    assert(part@.take(i as int) =~= part@);
    Ok(value)
}

/// Parses a FEN record: piece placement, active colour, castling
/// availability, en-passant square, half-move clock and full-move number,
/// separated by single spaces.
pub fn parse_fen(fen: &str) -> (r: Result<GameState, FenError>)
    ensures
        r == parse_fen_spec(fen.spec_bytes()),
{
    let parts = split_fields(fen.as_bytes());
    if parts.len() != 6 {
        return Err(FenError::FieldCount);
    }
    let (white, black) = match parse_piece_placement(&parts[0]) {
        Ok(boards) => boards,
        Err(e) => return Err(e),
    };
    let active = match parse_active_color(&parts[1]) {
        Ok(player) => player,
        Err(e) => return Err(e),
    };
    let (white_rights, black_rights) = match parse_castling_ability(&parts[2]) {
        Ok(rights) => rights,
        Err(e) => return Err(e),
    };
    let en_passant = match parse_en_passant(&parts[3]) {
        Ok(square) => square,
        Err(e) => return Err(e),
    };
    let half_moves = match parse_number(&parts[4]) {
        Ok(n) => n,
        Err(e) => return Err(e),
    };
    let full_moves = match parse_number(&parts[5]) {
        Ok(n) => n,
        Err(e) => return Err(e),
    };
    if full_moves == 0 {
        return Err(FenError::Number);
    }
    Ok(
        GameState {
            white_board: white,
            black_board: black,
            player_turn: active,
            en_passant,
            white_castle_rights: white_rights,
            black_castle_rights: black_rights,
            draw_plies: half_moves,
            full_turns: full_moves - 1,
        },
    )
}

impl GameState {
    /// Parses the given FEN record.
    pub fn parse_fen(fen: &str) -> (r: Result<GameState, FenError>)
        ensures
            r == parse_fen_spec(fen.spec_bytes()),
    {
        parse_fen(fen)
    }
}

} // verus!
