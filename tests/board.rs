use gladius::board::bitboard::{
    BitBoard, BLACK_START_BISHOPS, BLACK_START_KINGS, BLACK_START_KNIGHTS, BLACK_START_PAWNS,
    BLACK_START_QUEENS, BLACK_START_ROOKS, WHITE_START_BISHOPS, WHITE_START_KINGS,
    WHITE_START_KNIGHTS, WHITE_START_PAWNS, WHITE_START_QUEENS, WHITE_START_ROOKS,
};
use gladius::board::file::File;
use gladius::board::piece::Piece;
use gladius::board::player::Player;
use gladius::board::rank::Rank;
use gladius::board::square::Square;
use gladius::rules::game_state::GameState;

#[test]
fn test_bitboard_ops() {
    // xor, and, or operators
    let all_white = BitBoard(WHITE_START_PAWNS) | BitBoard(WHITE_START_ROOKS) | BitBoard(WHITE_START_KNIGHTS)
        | BitBoard(WHITE_START_BISHOPS) | BitBoard(WHITE_START_QUEENS)
        | BitBoard(WHITE_START_KINGS);

    let white_pieces = all_white ^ BitBoard(WHITE_START_PAWNS);
    assert_eq!(
        white_pieces & BitBoard(WHITE_START_PAWNS),
        BitBoard::empty()
    );
    assert_eq!(white_pieces & all_white, white_pieces);

    let black_pieces = all_white.flip() ^ BitBoard(BLACK_START_PAWNS);
    assert_eq!(black_pieces.flip(), white_pieces);

    let all_black = black_pieces | BitBoard(BLACK_START_PAWNS);
    assert_eq!(all_white.flip(), all_black);

    // not operator
    assert_eq!(
        !!BitBoard(BLACK_START_ROOKS) ^ BitBoard(BLACK_START_ROOKS),
        BitBoard::empty()
    );

    // iterator
    let mut count = 0;
    for sq in BitBoard(BLACK_START_PAWNS).iter() {
        assert_eq!(sq.rank(), Rank::Seven);
        count += 1;
    }
    assert_eq!(count, 8)
}

#[test]
fn test_bitboard_flip() {
    assert_eq!(
        BitBoard(WHITE_START_PAWNS).flip(),
        BitBoard(BLACK_START_PAWNS)
    );
    assert_eq!(
        BitBoard(WHITE_START_ROOKS),
        BitBoard(BLACK_START_ROOKS).flip()
    );

    assert_eq!(
        BitBoard(WHITE_START_KNIGHTS).flip().flip(),
        BitBoard(BLACK_START_KNIGHTS).flip()
    );
    assert_eq!(
        BitBoard(WHITE_START_BISHOPS).flip(),
        BitBoard(BLACK_START_BISHOPS).flip().flip()
    );

    assert_eq!(
        BitBoard(WHITE_START_QUEENS),
        BitBoard(BLACK_START_KINGS).flip()
    );
    assert_eq!(
        BitBoard(WHITE_START_KINGS).flip(),
        BitBoard(BLACK_START_QUEENS)
    );
}

#[test]
fn test_bitboard_mirror_horizontal() {
    assert_eq!(
        BitBoard(WHITE_START_PAWNS).mirror_horizontal(),
        BitBoard(BLACK_START_PAWNS)
    );
    assert_eq!(
        BitBoard(WHITE_START_ROOKS),
        BitBoard(BLACK_START_ROOKS).mirror_horizontal()
    );

    assert_eq!(
        BitBoard(WHITE_START_BISHOPS),
        BitBoard(WHITE_START_BISHOPS)
            .mirror_horizontal()
            .mirror_horizontal()
    );

    assert_eq!(
        BitBoard(WHITE_START_QUEENS),
        BitBoard(BLACK_START_QUEENS).mirror_horizontal()
    );
    assert_eq!(
        BitBoard(WHITE_START_KINGS).mirror_horizontal(),
        BitBoard(BLACK_START_KINGS)
    );
    assert_eq!(
        Rank::Five.to_bitboard().mirror_horizontal(),
        Rank::Four.to_bitboard()
    );
    assert_eq!(
        File::A.to_bitboard().mirror_horizontal(),
        File::A.to_bitboard()
    );
}

#[test]
fn test_bitboard_mirror_diag() {
    assert_eq!(
        Rank::Eight.to_bitboard().mirror_diag(),
        File::H.to_bitboard()
    );
    assert_eq!(
        File::C.to_bitboard().mirror_diag(),
        Rank::Three.to_bitboard()
    );
    assert_eq!(
        File::G.to_bitboard().mirror_diag(),
        Rank::Seven.to_bitboard()
    );
    assert_eq!(
        Rank::Five.to_bitboard().mirror_diag(),
        File::E.to_bitboard()
    );

    assert_eq!(
        Square::from_coordinates(File::B, Rank::Five)
            .to_bitboard()
            .mirror_diag(),
        Square::from_coordinates(File::E, Rank::Two).to_bitboard()
    );
}

#[test]
fn test_square_flip() {
    assert_eq!(
        Square::from_coordinates(File::A, Rank::One).flip(),
        Square::from_coordinates(File::H, Rank::Eight)
    );
    assert_eq!(
        Square::from_coordinates(File::C, Rank::Three).flip(),
        Square::from_coordinates(File::F, Rank::Six)
    );
    assert_eq!(
        Square::from_coordinates(File::C, Rank::Six).flip(),
        Square::from_coordinates(File::F, Rank::Three)
    );
}

#[test]
fn test_square_mirror_horizontal() {
    assert_eq!(
        Square::from_coordinates(File::A, Rank::One).mirror_horizontal(),
        Square::from_coordinates(File::A, Rank::Eight)
    );
    assert_eq!(
        Square::from_coordinates(File::C, Rank::Three).mirror_horizontal(),
        Square::from_coordinates(File::C, Rank::Six)
    );
    assert_eq!(
        Square::from_coordinates(File::C, Rank::Six).mirror_horizontal(),
        Square::from_coordinates(File::C, Rank::Three)
    );
}

#[test]
fn test_square_mirror_diagonal() {
    assert_eq!(
        Square::from_coordinates(File::A, Rank::One).mirror_diag(),
        Square::from_coordinates(File::A, Rank::One)
    );
    assert_eq!(
        Square::from_coordinates(File::C, Rank::Three).mirror_diag(),
        Square::from_coordinates(File::C, Rank::Three)
    );
    assert_eq!(
        Square::from_coordinates(File::C, Rank::Eight).mirror_diag(),
        Square::from_coordinates(File::H, Rank::Three)
    );
    assert_eq!(
        Square::from_coordinates(File::G, Rank::Two).mirror_diag(),
        Square::from_coordinates(File::B, Rank::Seven)
    );
    assert_eq!(
        Square::from_coordinates(File::E, Rank::Four).mirror_diag(),
        Square::from_coordinates(File::D, Rank::Five)
    );
}

#[test]
fn test_square_diag() {
    assert_eq!(
        Square::from_coordinates(File::A, Rank::One).diagonal(),
        BitBoard::new(0x8040201008040201)
    );
    assert_eq!(
        Square::from_coordinates(File::A, Rank::Two).diagonal(),
        BitBoard::new(0x4020100804020100)
    );
    assert_eq!(
        Square::from_coordinates(File::B, Rank::One).diagonal(),
        BitBoard::new(0x80402010080402)
    );
    assert_eq!(
        Square::from_coordinates(File::H, Rank::Three).diagonal(),
        BitBoard::new(0x804020)
    );
    assert_eq!(
        Square::from_coordinates(File::H, Rank::Six).diagonal(),
        BitBoard::new(0x804020100804)
    );
    assert_eq!(
        Square::from_coordinates(File::F, Rank::Three).diagonal(),
        BitBoard::new(0x8040201008)
    );
    assert_eq!(
        Square::from_coordinates(File::F, Rank::Eight).diagonal(),
        BitBoard::new(0x2010080402010000)
    );
    assert_eq!(
        Square::from_coordinates(File::H, Rank::One).diagonal(),
        BitBoard::new(0x80)
    );
}

#[test]
fn test_square_antidiag() {
    assert_eq!(
        Square::from_coordinates(File::A, Rank::One).antidiagonal(),
        BitBoard::new(0x1)
    );
    assert_eq!(
        Square::from_coordinates(File::A, Rank::Two).antidiagonal(),
        BitBoard::new(0x102)
    );
    assert_eq!(
        Square::from_coordinates(File::B, Rank::One).antidiagonal(),
        BitBoard::new(0x102)
    );
    assert_eq!(
        Square::from_coordinates(File::H, Rank::Three).antidiagonal(),
        BitBoard::new(0x408102040800000)
    );
    assert_eq!(
        Square::from_coordinates(File::H, Rank::Six).antidiagonal(),
        BitBoard::new(0x2040800000000000)
    );
    assert_eq!(
        Square::from_coordinates(File::F, Rank::Three).antidiagonal(),
        BitBoard::new(0x102040810204080)
    );
    assert_eq!(
        Square::from_coordinates(File::F, Rank::Eight).antidiagonal(),
        BitBoard::new(0x2040800000000000)
    );
}

#[test]
fn test_rank() {
    //TODO: Complete set of tests for this.
    assert_eq!(Rank::Two.to_index(), 1);
    assert_eq!(Rank::from_index(6), Rank::Seven);

    assert_eq!(Rank::One.to_bitboard(), BitBoard(0xFF));
    assert_eq!(Rank::Two.to_bitboard(), BitBoard(0xFF00));
    assert_eq!(Rank::Three.to_bitboard(), BitBoard(0xFF0000));
    assert_eq!(Rank::Four.to_bitboard(), BitBoard(0xFF000000));
    assert_eq!(Rank::Five.to_bitboard(), BitBoard(0xFF00000000));
    assert_eq!(Rank::Six.to_bitboard(), BitBoard(0xFF0000000000));
    assert_eq!(Rank::Seven.to_bitboard(), BitBoard(0xFF000000000000));
    assert_eq!(Rank::Eight.to_bitboard(), BitBoard(0xFF00000000000000));
}

#[test]
fn test_file() {
    // TODO Complete set of tests for these.
    assert_eq!(File::B.to_index(), 1);
    assert_eq!(File::from_index(6), File::G);

    assert_eq!(File::A.to_bitboard(), BitBoard(0x101010101010101));
    assert_eq!(File::D.to_bitboard(), BitBoard(0x808080808080808));
    assert_eq!(File::H.to_bitboard(), BitBoard(0x8080808080808080));
}

#[test]
fn test_game_state() {
    let state = GameState::start_position(); // TODO, test the board.

    println!("{:?}", state);
}

#[test]
fn bitboard_bitboard_ops() {
    // xor, and, or operators
    let all_white = BitBoard(WHITE_START_PAWNS) | BitBoard(WHITE_START_ROOKS) | BitBoard(WHITE_START_KNIGHTS)
        | BitBoard(WHITE_START_BISHOPS) | BitBoard(WHITE_START_QUEENS)
        | BitBoard(WHITE_START_KINGS);

    let white_pieces = all_white ^ BitBoard(WHITE_START_PAWNS);
    assert_eq!(
        white_pieces & BitBoard(WHITE_START_PAWNS),
        BitBoard::empty()
    );
    assert_eq!(white_pieces & all_white, white_pieces);

    let black_pieces = all_white.flip() ^ BitBoard(BLACK_START_PAWNS);
    assert_eq!(black_pieces.flip(), white_pieces);

    let all_black = black_pieces | BitBoard(BLACK_START_PAWNS);
    assert_eq!(all_white.flip(), all_black);

    // not operator
    assert_eq!(
        !!BitBoard(BLACK_START_ROOKS) ^ BitBoard(BLACK_START_ROOKS),
        BitBoard::empty()
    );

    // iterator
    let mut count = 0;
    for sq in BitBoard(BLACK_START_PAWNS).iter() {
        assert_eq!(sq.rank(), Rank::Seven);
        count += 1;
    }
    assert_eq!(count, 8)
}

#[test]
fn bitboard_bitboard_flip() {
    assert_eq!(
        BitBoard(WHITE_START_PAWNS).flip(),
        BitBoard(BLACK_START_PAWNS)
    );
    assert_eq!(
        BitBoard(WHITE_START_ROOKS),
        BitBoard(BLACK_START_ROOKS).flip()
    );

    assert_eq!(
        BitBoard(WHITE_START_KNIGHTS).flip().flip(),
        BitBoard(BLACK_START_KNIGHTS).flip()
    );
    assert_eq!(
        BitBoard(WHITE_START_BISHOPS).flip(),
        BitBoard(BLACK_START_BISHOPS).flip().flip()
    );

    assert_eq!(
        BitBoard(WHITE_START_QUEENS),
        BitBoard(BLACK_START_KINGS).flip()
    );
    assert_eq!(
        BitBoard(WHITE_START_KINGS).flip(),
        BitBoard(BLACK_START_QUEENS)
    );
}

#[test]
fn bitboard_bitboard_mirror_horizontal() {
    assert_eq!(
        BitBoard(WHITE_START_PAWNS).mirror_horizontal(),
        BitBoard(BLACK_START_PAWNS)
    );
    assert_eq!(
        BitBoard(WHITE_START_ROOKS),
        BitBoard(BLACK_START_ROOKS).mirror_horizontal()
    );

    assert_eq!(
        BitBoard(WHITE_START_BISHOPS),
        BitBoard(WHITE_START_BISHOPS)
            .mirror_horizontal()
            .mirror_horizontal()
    );

    assert_eq!(
        BitBoard(WHITE_START_QUEENS),
        BitBoard(BLACK_START_QUEENS).mirror_horizontal()
    );
    assert_eq!(
        BitBoard(WHITE_START_KINGS).mirror_horizontal(),
        BitBoard(BLACK_START_KINGS)
    );
    assert_eq!(
        Rank::Five.to_bitboard().mirror_horizontal(),
        Rank::Four.to_bitboard()
    );
    assert_eq!(
        File::A.to_bitboard().mirror_horizontal(),
        File::A.to_bitboard()
    );
}

#[test]
fn bitboard_bitboard_mirror_diag() {
    assert_eq!(
        Rank::Eight.to_bitboard().mirror_diag(),
        File::H.to_bitboard()
    );
    assert_eq!(
        File::C.to_bitboard().mirror_diag(),
        Rank::Three.to_bitboard()
    );
    assert_eq!(
        File::G.to_bitboard().mirror_diag(),
        Rank::Seven.to_bitboard()
    );
    assert_eq!(
        Rank::Five.to_bitboard().mirror_diag(),
        File::E.to_bitboard()
    );

    assert_eq!(
        Square::from_coordinates(File::B, Rank::Five)
            .to_bitboard()
            .mirror_diag(),
        Square::from_coordinates(File::E, Rank::Two).to_bitboard()
    );
}

#[test]
fn bitboard_to_square() {
    let square = Square::from_coordinates(File::F, Rank::Three);
    assert_eq!(square, square.to_bitboard().to_square());
}

#[test]
fn square_square_flip() {
    assert_eq!(
        Square::from_coordinates(File::A, Rank::One).flip(),
        Square::from_coordinates(File::H, Rank::Eight)
    );
    assert_eq!(
        Square::from_coordinates(File::C, Rank::Three).flip(),
        Square::from_coordinates(File::F, Rank::Six)
    );
    assert_eq!(
        Square::from_coordinates(File::C, Rank::Six).flip(),
        Square::from_coordinates(File::F, Rank::Three)
    );
}

#[test]
fn square_square_mirror_horizontal() {
    assert_eq!(
        Square::from_coordinates(File::A, Rank::One).mirror_horizontal(),
        Square::from_coordinates(File::A, Rank::Eight)
    );
    assert_eq!(
        Square::from_coordinates(File::C, Rank::Three).mirror_horizontal(),
        Square::from_coordinates(File::C, Rank::Six)
    );
    assert_eq!(
        Square::from_coordinates(File::C, Rank::Six).mirror_horizontal(),
        Square::from_coordinates(File::C, Rank::Three)
    );
}

#[test]
fn square_square_mirror_diagonal() {
    assert_eq!(
        Square::from_coordinates(File::A, Rank::One).mirror_diag(),
        Square::from_coordinates(File::A, Rank::One)
    );
    assert_eq!(
        Square::from_coordinates(File::C, Rank::Three).mirror_diag(),
        Square::from_coordinates(File::C, Rank::Three)
    );
    assert_eq!(
        Square::from_coordinates(File::C, Rank::Eight).mirror_diag(),
        Square::from_coordinates(File::H, Rank::Three)
    );
    assert_eq!(
        Square::from_coordinates(File::G, Rank::Two).mirror_diag(),
        Square::from_coordinates(File::B, Rank::Seven)
    );
    assert_eq!(
        Square::from_coordinates(File::E, Rank::Four).mirror_diag(),
        Square::from_coordinates(File::D, Rank::Five)
    );
}

#[test]
fn square_square_diag() {
    assert_eq!(
        Square::from_coordinates(File::A, Rank::One).diagonal(),
        BitBoard::new(0x8040201008040201)
    );
    assert_eq!(
        Square::from_coordinates(File::A, Rank::Two).diagonal(),
        BitBoard::new(0x4020100804020100)
    );
    assert_eq!(
        Square::from_coordinates(File::B, Rank::One).diagonal(),
        BitBoard::new(0x80402010080402)
    );
    assert_eq!(
        Square::from_coordinates(File::H, Rank::Three).diagonal(),
        BitBoard::new(0x804020)
    );
    assert_eq!(
        Square::from_coordinates(File::H, Rank::Six).diagonal(),
        BitBoard::new(0x804020100804)
    );
    assert_eq!(
        Square::from_coordinates(File::F, Rank::Three).diagonal(),
        BitBoard::new(0x8040201008)
    );
    assert_eq!(
        Square::from_coordinates(File::F, Rank::Eight).diagonal(),
        BitBoard::new(0x2010080402010000)
    );
    assert_eq!(
        Square::from_coordinates(File::H, Rank::One).diagonal(),
        BitBoard::new(0x80)
    );
}

#[test]
fn square_square_antidiag() {
    assert_eq!(
        Square::from_coordinates(File::A, Rank::One).antidiagonal(),
        BitBoard::new(0x1)
    );
    assert_eq!(
        Square::from_coordinates(File::A, Rank::Two).antidiagonal(),
        BitBoard::new(0x102)
    );
    assert_eq!(
        Square::from_coordinates(File::B, Rank::One).antidiagonal(),
        BitBoard::new(0x102)
    );
    assert_eq!(
        Square::from_coordinates(File::H, Rank::Three).antidiagonal(),
        BitBoard::new(0x408102040800000)
    );
    assert_eq!(
        Square::from_coordinates(File::H, Rank::Six).antidiagonal(),
        BitBoard::new(0x2040800000000000)
    );
    assert_eq!(
        Square::from_coordinates(File::F, Rank::Three).antidiagonal(),
        BitBoard::new(0x102040810204080)
    );
    assert_eq!(
        Square::from_coordinates(File::F, Rank::Eight).antidiagonal(),
        BitBoard::new(0x2040800000000000)
    );
}

#[test]
fn file_file() {
    assert_eq!(File::B.to_index(), 1);
    assert_eq!(File::from_index(6), File::G);

    assert_eq!(File::A.to_bitboard(), BitBoard(0x101010101010101));
    assert_eq!(File::D.to_bitboard(), BitBoard(0x808080808080808));
    assert_eq!(File::H.to_bitboard(), BitBoard(0x8080808080808080));
}

#[test]
fn piece() {
    let pieces: Vec<_> = Piece::iter();
    assert_eq!(pieces[0], Piece::Pawn);
    assert_eq!(pieces[1], Piece::Rook);
    assert_eq!(pieces[2], Piece::Knight);
    assert_eq!(pieces[3], Piece::Bishop);
    assert_eq!(pieces[4], Piece::Queen);
    assert_eq!(pieces[5], Piece::King);
}

#[test]
fn player() {
    let black = Player::White.other();
    let white = black.other();
    assert_eq!(black, Player::Black);
    assert_eq!(white, Player::White);
}

#[test]
fn rank_rank() {
    assert_eq!(Rank::Two.to_index(), 1);
    assert_eq!(Rank::from_index(6), Rank::Seven);

    assert_eq!(Rank::One.to_bitboard(), BitBoard(0xFF));
    assert_eq!(Rank::Two.to_bitboard(), BitBoard(0xFF00));
    assert_eq!(Rank::Three.to_bitboard(), BitBoard(0xFF0000));
    assert_eq!(Rank::Four.to_bitboard(), BitBoard(0xFF000000));
    assert_eq!(Rank::Five.to_bitboard(), BitBoard(0xFF00000000));
    assert_eq!(Rank::Six.to_bitboard(), BitBoard(0xFF0000000000));
    assert_eq!(Rank::Seven.to_bitboard(), BitBoard(0xFF000000000000));
    assert_eq!(Rank::Eight.to_bitboard(), BitBoard(0xFF00000000000000));
}
