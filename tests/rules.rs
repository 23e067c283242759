use gladius::board::bitboard::{
    BitBoard, BLACK_START_KINGS, BLACK_START_ROOKS, WHITE_START_KINGS, WHITE_START_ROOKS,
};
use gladius::board::file::File;
use gladius::board::piece::Piece;
use gladius::board::player::Player;
use gladius::board::rank::Rank;
use gladius::board::square::Square;
use gladius::rules::castle_rights::CastleRights;
use gladius::rules::fen_parser::parse_fen;
use gladius::rules::game_state::GameState;
use gladius::rules::move_application::{CastleMove, Move};
use gladius::rules::player_board::PlayerBoard;

#[test]
fn castle_rights() {
    assert_eq!(CastleRights::Neither.is_queen_side_available(), false);
    assert_eq!(CastleRights::Neither.is_king_side_available(), false);

    assert_eq!(CastleRights::Both.is_queen_side_available(), true);
    assert_eq!(CastleRights::Both.is_king_side_available(), true);

    assert_eq!(CastleRights::QueenSide.is_queen_side_available(), true);
    assert_eq!(CastleRights::QueenSide.is_king_side_available(), false);

    assert_eq!(CastleRights::KingSide.is_queen_side_available(), false);
    assert_eq!(CastleRights::KingSide.is_king_side_available(), true);

    assert_eq!(CastleRights::Both.without_king_side(), CastleRights::QueenSide);
    assert_eq!(CastleRights::Both.without_queen_side(), CastleRights::KingSide);

    assert_eq!(CastleRights::QueenSide.without_queen_side(), CastleRights::Neither);
    assert_eq!(CastleRights::KingSide.without_king_side(), CastleRights::Neither);
}

#[test]
fn is_check_rook() {
    let state = GameState::default()
        .with_white_board(
            PlayerBoard::default()
                .with_king(Square::from_coordinates(File::B, Rank::Two).to_bitboard()),
        )
        .with_black_board(
            PlayerBoard::default()
                .with_rooks(Square::from_coordinates(File::B, Rank::Four).to_bitboard()),
        );
    assert_eq!(state.is_check(Player::White), true);

    let state = state.clone().with_white_board(
        state
            .white_board
            .with_pawns(Square::from_coordinates(File::B, Rank::Three).to_bitboard()),
    );
    assert_eq!(state.is_check(Player::White), false);
}

#[test]
fn is_check_pawn() {
    let state = GameState::default()
        .with_white_board(
            PlayerBoard::default()
                .with_king(Square::from_coordinates(File::B, Rank::Two).to_bitboard()),
        )
        .with_black_board(
            PlayerBoard::default()
                .with_pawns(Square::from_coordinates(File::C, Rank::Three).to_bitboard()),
        );
    assert_eq!(state.is_check(Player::White), true);
}

#[test]
fn is_check_knight() {
    let state = GameState::default()
        .with_white_board(
            PlayerBoard::default()
                .with_king(Square::from_coordinates(File::B, Rank::Two).to_bitboard()),
        )
        .with_black_board(
            PlayerBoard::default()
                .with_knights(Square::from_coordinates(File::C, Rank::Four).to_bitboard()),
        );
    assert_eq!(state.is_check(Player::White), true);
}

#[test]
fn is_check_bishop() {
    let state = GameState::default()
        .with_white_board(
            PlayerBoard::default()
                .with_king(Square::from_coordinates(File::B, Rank::Two).to_bitboard()),
        )
        .with_black_board(
            PlayerBoard::default()
                .with_bishops(Square::from_coordinates(File::E, Rank::Five).to_bitboard()),
        );
    assert_eq!(state.is_check(Player::White), true);

    let state = state.clone().with_white_board(
        state
            .white_board
            .with_pawns(Square::from_coordinates(File::C, Rank::Three).to_bitboard()),
    );
    assert_eq!(state.is_check(Player::White), false);
}

#[test]
fn parse_default() {
    let state = parse_fen("rnbqkbnr/pppppppp/8/8/8/8/PPPPPPPP/RNBQKBNR w KQkq - 0 1").unwrap();

    assert_eq!(state, GameState::start_position());
}

#[test]
fn parse_example1() {
    let state = parse_fen("5k2/ppp5/4P3/3R3p/6P1/1K2Nr2/PP3P2/8 b - - 1 32").unwrap();

    let expected = GameState {
        white_board: PlayerBoard {
            pawns: BitBoard::empty()
                .set_coordinate(File::A, Rank::Two)
                .set_coordinate(File::B, Rank::Two)
                .set_coordinate(File::F, Rank::Two)
                .set_coordinate(File::G, Rank::Four)
                .set_coordinate(File::E, Rank::Six),
            rooks: BitBoard::empty().set_coordinate(File::D, Rank::Five),
            knights: BitBoard::empty().set_coordinate(File::E, Rank::Three),
            bishops: BitBoard::empty(),
            queens: BitBoard::empty(),
            king: BitBoard::empty().set_coordinate(File::B, Rank::Three),
        },
        black_board: PlayerBoard {
            pawns: BitBoard::empty()
                .set_coordinate(File::A, Rank::Seven)
                .set_coordinate(File::B, Rank::Seven)
                .set_coordinate(File::C, Rank::Seven)
                .set_coordinate(File::H, Rank::Five),
            rooks: BitBoard::empty().set_coordinate(File::F, Rank::Three),
            knights: BitBoard::empty(),
            bishops: BitBoard::empty(),
            queens: BitBoard::empty(),
            king: BitBoard::empty().set_coordinate(File::F, Rank::Eight),
        },
        player_turn: Player::Black,
        en_passant: None,
        white_castle_rights: CastleRights::Neither,
        black_castle_rights: CastleRights::Neither,
        draw_plies: 1,
        full_turns: 31,
    };

    assert_eq!(state, expected);
}

#[test]
fn parse_en_passant() {
    let state = parse_fen("rnbqkbnr/pppppppp/8/8/4P3/8/PPPP1PPP/RNBQKBNR b KQkq e3 0 1").unwrap();
    assert_eq!(
        state.en_passant,
        Some(Square::from_coordinates(File::E, Rank::Three))
    );
}

#[test]
fn game_state_game_state() {
    let mut state = GameState::start_position();

    assert_eq!(
        state.player_board(Player::White),
        PlayerBoard::start_position(Player::White)
    );
    assert_eq!(
        state.player_board(Player::Black),
        PlayerBoard::start_position(Player::Black)
    );

    state = state.with_white_castle_rights(CastleRights::QueenSide);
    assert_eq!(state.castle_rights(Player::White), CastleRights::QueenSide);
    assert_eq!(state.castle_rights(Player::Black), CastleRights::Both);

    state.set_castle_rights(Player::Black, CastleRights::KingSide);
    state.set_castle_rights(Player::White, CastleRights::KingSide);
    assert_eq!(state.black_castle_rights, CastleRights::KingSide);
    assert_eq!(state.white_castle_rights, CastleRights::KingSide);
}

#[test]
fn starting_position() {
    let state = GameState::start_position();
    let all_moves = state.legal_moves();

    let pawn_moves: Vec<_> = all_moves
        .iter()
        .filter(|m| m.piece == Piece::Pawn)
        .collect();

    let knight_moves: Vec<_> = all_moves
        .iter()
        .filter(|m| m.piece == Piece::Knight)
        .collect();

    println!("{:?}", all_moves);

    assert_eq!(all_moves.len(), 20);
    assert_eq!(pawn_moves.len(), 16);
    assert_eq!(knight_moves.len(), 4);
}

#[test]
fn legal_moves_en_passant() {
    // +-+-+-+-+-+-+-+-+-+
    // | - - - - - - - - |
    // | - - - - - - - - |
    // | - - - . B - - - |
    // | - - - B W - - - |
    // | - - - - - - - - |
    // | - - - - - - - - |
    // | - - - - - - - - |
    // | K - - - - - - k |
    // +-+-+-+-+-+-+-+-+-+
    let state = GameState::default()
        .with_black_castle_rights(CastleRights::Neither)
        .with_white_castle_rights(CastleRights::Neither)
        .with_black_board(
            PlayerBoard::default()
                .with_pawns(
                    BitBoard::empty()
                        .set_coordinate(File::D, Rank::Five)
                        .set_coordinate(File::E, Rank::Six),
                )
                .with_king(BitBoard::empty().set_coordinate(File::A, Rank::One)),
        )
        .with_white_board(
            PlayerBoard::default()
                .with_pawns(BitBoard::empty().set_coordinate(File::E, Rank::Five))
                .with_king(BitBoard::empty().set_coordinate(File::H, Rank::One)),
        )
        .with_en_passant(Some(Square::from_coordinates(File::D, Rank::Six)));

    let moves = state.legal_moves();
    assert_eq!(moves.len(), 4); // capture + 3 king moves
    assert_eq!(moves.iter().any(|move_| move_.en_passant), true);
}

#[test]
fn promotion() {
    // +-+-+-+-+-+-+-+-+-+
    // | - - - - - - - - |
    // | - P - - - - - - |
    // | - - - - - - - - |
    // | - - - - - - - - |
    // | - - - - - - - - |
    // | - - - - - - - - |
    // | - - - - - - - - |
    // | K - - - - - - k |
    // +-+-+-+-+-+-+-+-+-+
    let state = GameState::default()
        .with_black_castle_rights(CastleRights::Neither)
        .with_white_castle_rights(CastleRights::Neither)
        .with_white_board(
            PlayerBoard::default()
                .with_pawns(BitBoard::empty().set_coordinate(File::B, Rank::Seven))
                .with_king(BitBoard::empty().set_coordinate(File::A, Rank::One)),
        )
        .with_black_board(
            PlayerBoard::default().with_king(BitBoard::empty().set_coordinate(File::H, Rank::One)),
        )
        .with_en_passant(Some(Square::from_coordinates(File::D, Rank::Six)));

    let moves = state.legal_moves();
    println!("{:#?}", moves);
    assert_eq!(moves.len(), 7); // 4 promotions + 3 king moves

    let promo_moves: Vec<_> = moves
        .iter()
        .filter(|m| m.promotion.is_some())
        .filter(|m| m.target == Square::from_coordinates(File::B, Rank::Eight))
        .collect();

    assert_eq!(promo_moves.len(), 4);
}

#[test]
fn include_checks() {
    // +-+-+-+-+-+-+-+-+-+
    // | - - - - - - - r |
    // | - - - - - - - k |
    // | - - - - - - - - |
    // | - - - - - - - - |
    // | - - - - - - - - |
    // | - - - - - - - - |
    // | - - - - - - - - |
    // | K - - - - - - - |
    // +-+-+-+-+-+-+-+-+-+
    let state = GameState::default()
        .with_black_castle_rights(CastleRights::Neither)
        .with_white_castle_rights(CastleRights::Neither)
        .with_white_board(
            PlayerBoard::default()
                .with_rooks(BitBoard::empty().set_coordinate(File::H, Rank::Eight))
                .with_king(BitBoard::empty().set_coordinate(File::H, Rank::Seven)),
        )
        .with_black_board(
            PlayerBoard::default().with_king(BitBoard::empty().set_coordinate(File::A, Rank::One)),
        );

    let moves = state.legal_moves();
    println!("{:?}", moves);
    assert_eq!(moves.len(), 11); // 4 king + 7 rook moves

    let rook_moves: Vec<_> = moves.iter().filter(|m| m.piece == Piece::Rook).collect();

    assert_eq!(rook_moves.len(), 7);
}

#[test]
fn exclude_self_checks() {
    // +-+-+-+-+-+-+-+-+-+
    // | - - - - - - - k |
    // | - - - - - - - b |
    // | - - - - - - - - |
    // | - - - - - - - - |
    // | - - - - - - - - |
    // | - - - - - - - - |
    // | - - - - - - - - |
    // | K - - - - - - R |
    // +-+-+-+-+-+-+-+-+-+
    // cannot move bishop
    let state = GameState::default()
        .with_black_castle_rights(CastleRights::Neither)
        .with_white_castle_rights(CastleRights::Neither)
        .with_white_board(
            PlayerBoard::default()
                .with_bishops(BitBoard::empty().set_coordinate(File::H, Rank::Seven))
                .with_king(BitBoard::empty().set_coordinate(File::H, Rank::Eight)),
        )
        .with_black_board(
            PlayerBoard::default()
                .with_king(BitBoard::empty().set_coordinate(File::A, Rank::One))
                .with_rooks(BitBoard::empty().set_coordinate(File::H, Rank::One)),
        );

    let moves = state.legal_moves();
    println!("{:?}", moves);
    assert_eq!(moves.len(), 2); // 2 king moves

    let king_moves: Vec<_> = moves.iter().filter(|m| m.piece == Piece::King).collect();

    assert_eq!(king_moves.len(), 2);
}

#[test]
fn only_save_check() {
    // +-+-+-+-+-+-+-+-+-+
    // | - - - - - - - r |
    // | - - - - - - - k |
    // | - - - - - - - - |
    // | - - - - - - - - |
    // | - - - - - - - - |
    // | - - - - - - - - |
    // | - - - - - - - - |
    // | K - - - - - - R |
    // +-+-+-+-+-+-+-+-+-+
    // have to move king out of check
    let state = GameState::default()
        .with_black_castle_rights(CastleRights::Neither)
        .with_white_castle_rights(CastleRights::Neither)
        .with_white_board(
            PlayerBoard::default()
                .with_rooks(BitBoard::empty().set_coordinate(File::H, Rank::Eight))
                .with_king(BitBoard::empty().set_coordinate(File::H, Rank::Seven)),
        )
        .with_black_board(
            PlayerBoard::default()
                .with_king(BitBoard::empty().set_coordinate(File::A, Rank::One))
                .with_rooks(BitBoard::empty().set_coordinate(File::H, Rank::One)),
        );

    let moves = state.legal_moves();
    println!("{:?}", moves);
    assert_eq!(moves.len(), 3); // 3 king moves

    let king_moves: Vec<_> = moves.iter().filter(|m| m.piece == Piece::King).collect();

    assert_eq!(king_moves.len(), 3);
}

#[test]
fn complex_position() {
    // white and then black.
}

#[test]
fn move_castle_white() {
    let initial_state = GameState::default()
        .with_white_castle_rights(CastleRights::Both)
        .with_black_castle_rights(CastleRights::Both)
        .with_player_turn(Player::White)
        .with_white_board(
            PlayerBoard::default()
                .with_rooks(BitBoard(WHITE_START_ROOKS))
                .with_king(BitBoard(WHITE_START_KINGS)),
        )
        .with_black_board(
            PlayerBoard::default()
                .with_rooks(BitBoard(BLACK_START_ROOKS))
                .with_king(BitBoard(BLACK_START_KINGS)),
        );

    let ks_move = Move {
        piece: Piece::King,
        origin: Square::from_coordinates(File::E, Rank::One),
        target: Square::from_coordinates(File::G, Rank::One),
        capture: false,
        en_passant: false,
        promotion: None,
        castle: Some(CastleMove::KingSide),
    };

    let ks_state = initial_state.apply_move(&ks_move);

    assert_eq!(
        ks_state,
        GameState {
            white_board: PlayerBoard::default()
                .with_rooks(
                    BitBoard::empty()
                        .set_coordinate(File::A, Rank::One)
                        .set_coordinate(File::F, Rank::One)
                )
                .with_king(BitBoard::empty().set_coordinate(File::G, Rank::One)),
            black_board: PlayerBoard::default()
                .with_rooks(BitBoard(BLACK_START_ROOKS))
                .with_king(BitBoard(BLACK_START_KINGS)),
            player_turn: Player::Black,
            en_passant: None,
            white_castle_rights: CastleRights::Neither,
            black_castle_rights: CastleRights::Both,
            draw_plies: 1,
            full_turns: 0,
        }
    );

    // ------
    let qs_move = Move {
        piece: Piece::King,
        origin: Square::from_coordinates(File::E, Rank::One),
        target: Square::from_coordinates(File::C, Rank::One),
        capture: false,
        en_passant: false,
        promotion: None,
        castle: Some(CastleMove::QueenSide),
    };

    let qs_state = initial_state.apply_move(&qs_move);

    assert_eq!(
        qs_state,
        GameState {
            white_board: PlayerBoard::default()
                .with_rooks(
                    BitBoard::empty()
                        .set_coordinate(File::H, Rank::One)
                        .set_coordinate(File::D, Rank::One)
                )
                .with_king(BitBoard::empty().set_coordinate(File::C, Rank::One)),
            black_board: PlayerBoard::default()
                .with_rooks(BitBoard(BLACK_START_ROOKS))
                .with_king(BitBoard(BLACK_START_KINGS)),
            player_turn: Player::Black,
            en_passant: None,
            white_castle_rights: CastleRights::Neither,
            black_castle_rights: CastleRights::Both,
            draw_plies: 1,
            full_turns: 0,
        }
    );
}

#[test]
fn move_castle_black() {
    let initial_state = GameState::default()
        .with_white_castle_rights(CastleRights::Both)
        .with_black_castle_rights(CastleRights::Both)
        .with_player_turn(Player::Black)
        .with_white_board(
            PlayerBoard::default()
                .with_rooks(BitBoard(WHITE_START_ROOKS))
                .with_king(BitBoard(WHITE_START_KINGS)),
        )
        .with_black_board(
            PlayerBoard::default()
                .with_rooks(BitBoard(BLACK_START_ROOKS))
                .with_king(BitBoard(BLACK_START_KINGS)),
        );

    let ks_move = Move {
        piece: Piece::King,
        origin: Square::from_coordinates(File::E, Rank::Eight),
        target: Square::from_coordinates(File::G, Rank::Eight),
        capture: false,
        en_passant: false,
        promotion: None,
        castle: Some(CastleMove::KingSide),
    };

    let ks_state = initial_state.apply_move(&ks_move);

    assert_eq!(
        ks_state,
        GameState {
            white_board: PlayerBoard::default()
                .with_rooks(BitBoard(WHITE_START_ROOKS))
                .with_king(BitBoard(WHITE_START_KINGS)),
            black_board: PlayerBoard::default()
                .with_rooks(
                    BitBoard::empty()
                        .set_coordinate(File::A, Rank::Eight)
                        .set_coordinate(File::F, Rank::Eight)
                )
                .with_king(BitBoard::empty().set_coordinate(File::G, Rank::Eight)),
            player_turn: Player::White,
            en_passant: None,
            white_castle_rights: CastleRights::Both,
            black_castle_rights: CastleRights::Neither,
            draw_plies: 1,
            full_turns: 1,
        }
    );

    // ------
    let qs_move = Move {
        piece: Piece::King,
        origin: Square::from_coordinates(File::E, Rank::Eight),
        target: Square::from_coordinates(File::C, Rank::Eight),
        capture: false,
        en_passant: false,
        promotion: None,
        castle: Some(CastleMove::QueenSide),
    };

    let qs_state = initial_state.apply_move(&qs_move);

    assert_eq!(
        qs_state,
        GameState {
            white_board: PlayerBoard::default()
                .with_rooks(BitBoard(WHITE_START_ROOKS))
                .with_king(BitBoard(WHITE_START_KINGS)),
            black_board: PlayerBoard::default()
                .with_rooks(
                    BitBoard::empty()
                        .set_coordinate(File::H, Rank::Eight)
                        .set_coordinate(File::D, Rank::Eight)
                )
                .with_king(BitBoard::empty().set_coordinate(File::C, Rank::Eight)),
            player_turn: Player::White,
            en_passant: None,
            white_castle_rights: CastleRights::Both,
            black_castle_rights: CastleRights::Neither,
            draw_plies: 1,
            full_turns: 1,
        }
    );
}

#[test]
fn move_promote_white() {
    let initial_state = GameState::default()
        .with_player_turn(Player::White)
        .with_white_board(
            PlayerBoard::default()
                .with_pawns(BitBoard::empty().set_coordinate(File::G, Rank::Seven)),
        );

    let move_ = Move {
        piece: Piece::Pawn,
        origin: Square::from_coordinates(File::G, Rank::Seven),
        target: Square::from_coordinates(File::G, Rank::Eight),
        capture: false,
        en_passant: false,
        promotion: Some(Piece::Queen),
        castle: None,
    };

    let state = initial_state.apply_move(&move_);

    assert_eq!(
        state,
        GameState {
            white_board: PlayerBoard::default()
                .with_queens(BitBoard::empty().set_coordinate(File::G, Rank::Eight)),
            black_board: PlayerBoard::default(),
            player_turn: Player::Black,
            en_passant: None,
            white_castle_rights: CastleRights::Neither,
            black_castle_rights: CastleRights::Neither,
            draw_plies: 0,
            full_turns: 0,
        }
    );
}

#[test]
fn move_promote_black() {
    let initial_state = GameState::default()
        .with_player_turn(Player::Black)
        .with_black_board(
            PlayerBoard::default().with_pawns(BitBoard::empty().set_coordinate(File::B, Rank::Two)),
        );

    let move_ = Move {
        piece: Piece::Pawn,
        origin: Square::from_coordinates(File::B, Rank::Two),
        target: Square::from_coordinates(File::B, Rank::One),
        capture: false,
        en_passant: false,
        promotion: Some(Piece::Knight),
        castle: None,
    };

    let state = initial_state.apply_move(&move_);

    assert_eq!(
        state,
        GameState {
            white_board: PlayerBoard::default(),
            black_board: PlayerBoard::default()
                .with_knights(BitBoard::empty().set_coordinate(File::B, Rank::One)),
            player_turn: Player::White,
            en_passant: None,
            white_castle_rights: CastleRights::Neither,
            black_castle_rights: CastleRights::Neither,
            draw_plies: 0,
            full_turns: 1,
        }
    );
}

#[test]
fn move_sequence() {
    let mut state = GameState::start_position();

    let move1 = Move {
        piece: Piece::Pawn,
        origin: Square::from_coordinates(File::D, Rank::Two),
        target: Square::from_coordinates(File::D, Rank::Four),
        capture: false,
        en_passant: false,
        promotion: None,
        castle: None,
    };

    state = state.apply_move(&move1);

    let move2 = Move {
        piece: Piece::Pawn,
        origin: Square::from_coordinates(File::D, Rank::Seven),
        target: Square::from_coordinates(File::D, Rank::Five),
        capture: false,
        en_passant: false,
        promotion: None,
        castle: None,
    };

    state = state.apply_move(&move2);

    let move3 = Move {
        piece: Piece::Bishop,
        origin: Square::from_coordinates(File::C, Rank::One),
        target: Square::from_coordinates(File::F, Rank::Four),
        capture: false,
        en_passant: false,
        promotion: None,
        castle: None,
    };

    state = state.apply_move(&move3);

    let move4 = Move {
        piece: Piece::Pawn,
        origin: Square::from_coordinates(File::E, Rank::Seven),
        target: Square::from_coordinates(File::E, Rank::Five),
        capture: false,
        en_passant: false,
        promotion: None,
        castle: None,
    };

    state = state.apply_move(&move4);

    assert_eq!(
        state,
        GameState {
            white_board: PlayerBoard {
                pawns: BitBoard::new(134280960),
                rooks: BitBoard::new(129),
                knights: BitBoard::new(66),
                bishops: BitBoard::new(536870944),
                queens: BitBoard::new(8),
                king: BitBoard::new(16),
            },
            black_board: PlayerBoard {
                pawns: BitBoard::new(65020822699376640),
                rooks: BitBoard::new(9295429630892703744),
                knights: BitBoard::new(4755801206503243776),
                bishops: BitBoard::new(2594073385365405696),
                queens: BitBoard::new(576460752303423488),
                king: BitBoard::new(1152921504606846976),
            },
            player_turn: Player::White,
            en_passant: Some(Square::new(44)),
            white_castle_rights: CastleRights::Both,
            black_castle_rights: CastleRights::Both,
            draw_plies: 0,
            full_turns: 2,
        }
    );
}

#[test]
fn attack_sequence() {
    let mut state = GameState::start_position();

    let move1 = Move {
        piece: Piece::Pawn,
        origin: Square::from_coordinates(File::E, Rank::Two),
        target: Square::from_coordinates(File::E, Rank::Four),
        capture: false,
        en_passant: false,
        promotion: None,
        castle: None,
    };

    state = state.apply_move(&move1);

    let move2 = Move {
        piece: Piece::Pawn,
        origin: Square::from_coordinates(File::D, Rank::Seven),
        target: Square::from_coordinates(File::D, Rank::Five),
        capture: false,
        en_passant: false,
        promotion: None,
        castle: None,
    };

    state = state.apply_move(&move2);

    let move3 = Move {
        piece: Piece::Pawn,
        origin: Square::from_coordinates(File::E, Rank::Four),
        target: Square::from_coordinates(File::D, Rank::Five),
        capture: true,
        en_passant: false,
        promotion: None,
        castle: None,
    };

    state = state.apply_move(&move3);

    let move4 = Move {
        piece: Piece::Queen,
        origin: Square::from_coordinates(File::D, Rank::Eight),
        target: Square::from_coordinates(File::D, Rank::Five),
        capture: true,
        en_passant: false,
        promotion: None,
        castle: None,
    };

    state = state.apply_move(&move4);

    assert_eq!(
        state,
        GameState {
            white_board: PlayerBoard {
                pawns: BitBoard::new(61184),
                rooks: BitBoard::new(129),
                knights: BitBoard::new(66),
                bishops: BitBoard::new(36),
                queens: BitBoard::new(8),
                king: BitBoard::new(16),
            },
            black_board: PlayerBoard {
                pawns: BitBoard::new(69524319247532032),
                rooks: BitBoard::new(9295429630892703744),
                knights: BitBoard::new(4755801206503243776),
                bishops: BitBoard::new(2594073385365405696),
                queens: BitBoard::new(34359738368),
                king: BitBoard::new(1152921504606846976),
            },
            player_turn: Player::White,
            en_passant: None,
            white_castle_rights: CastleRights::Both,
            black_castle_rights: CastleRights::Both,
            draw_plies: 0,
            full_turns: 2,
        }
    );
}

#[test]
fn move_application_en_passant() {
    let mut state = GameState::start_position().with_black_board(
        PlayerBoard::default()
            .with_pawns(Square::from_coordinates(File::E, Rank::Four).to_bitboard()),
    );

    let move1 = Move {
        piece: Piece::Pawn,
        origin: Square::from_coordinates(File::D, Rank::Two),
        target: Square::from_coordinates(File::D, Rank::Four),
        capture: false,
        en_passant: false,
        promotion: None,
        castle: None,
    };

    state = state.apply_move(&move1);

    let move2 = Move {
        piece: Piece::Pawn,
        origin: Square::from_coordinates(File::E, Rank::Four),
        target: Square::from_coordinates(File::D, Rank::Three),
        capture: true,
        en_passant: true,
        promotion: None,
        castle: None,
    };

    state = state.apply_move(&move2);

    assert_eq!(
        state,
        GameState {
            white_board: PlayerBoard {
                pawns: BitBoard::new(63232),
                rooks: BitBoard::new(129),
                knights: BitBoard::new(66),
                bishops: BitBoard::new(36),
                queens: BitBoard::new(8),
                king: BitBoard::new(16),
            },
            black_board: PlayerBoard {
                pawns: BitBoard::new(524288),
                rooks: BitBoard::new(0),
                knights: BitBoard::new(0),
                bishops: BitBoard::new(0),
                queens: BitBoard::new(0),
                king: BitBoard::new(0),
            },
            player_turn: Player::White,
            en_passant: None,
            white_castle_rights: CastleRights::Both,
            black_castle_rights: CastleRights::Both,
            draw_plies: 0,
            full_turns: 1,
        }
    );
}

#[test]
fn castle_rights_set_on_move() {
    let mut state = GameState::default()
        .with_white_castle_rights(CastleRights::Both)
        .with_black_castle_rights(CastleRights::Both)
        .with_white_board(PlayerBoard::start_position(Player::White).with_pawns(BitBoard::empty()))
        .with_black_board(PlayerBoard::start_position(Player::Black).with_pawns(BitBoard::empty()));

    let move1 = Move {
        piece: Piece::King,
        origin: Square::from_coordinates(File::E, Rank::One),
        target: Square::from_coordinates(File::D, Rank::Two),
        capture: false,
        en_passant: false,
        promotion: None,
        castle: None,
    };

    state = state.apply_move(&move1);
    assert_eq!(state.white_castle_rights, CastleRights::Neither);
    assert_eq!(state.black_castle_rights, CastleRights::Both);

    let move2 = Move {
        piece: Piece::Rook,
        origin: Square::from_coordinates(File::A, Rank::Eight),
        target: Square::from_coordinates(File::A, Rank::Three),
        capture: false,
        en_passant: false,
        promotion: None,
        castle: None,
    };

    state = state.apply_move(&move2);
    assert_eq!(state.white_castle_rights, CastleRights::Neither);
    assert_eq!(state.black_castle_rights, CastleRights::KingSide);
}

#[test]
fn castle_rights_set_on_castle() {
    let mut state = GameState::default()
        .with_white_castle_rights(CastleRights::Both)
        .with_black_castle_rights(CastleRights::Both)
        .with_white_board(
            PlayerBoard::start_position(Player::White)
                .with_pawns(BitBoard::empty())
                .with_knights(BitBoard::empty())
                .with_bishops(BitBoard::empty()),
        )
        .with_black_board(
            PlayerBoard::start_position(Player::Black)
                .with_pawns(BitBoard::empty())
                .with_knights(BitBoard::empty())
                .with_bishops(BitBoard::empty())
                .with_queens(BitBoard::empty()),
        );

    let move1 = Move {
        piece: Piece::King,
        origin: Square::from_coordinates(File::E, Rank::One),
        target: Square::from_coordinates(File::G, Rank::One),
        capture: false,
        en_passant: false,
        promotion: None,
        castle: Some(CastleMove::KingSide),
    };

    state = state.apply_move(&move1);
    assert_eq!(state.white_castle_rights, CastleRights::Neither);
    assert_eq!(state.black_castle_rights, CastleRights::Both);

    let move2 = Move {
        piece: Piece::King,
        origin: Square::from_coordinates(File::E, Rank::Eight),
        target: Square::from_coordinates(File::B, Rank::Eight),
        capture: false,
        en_passant: false,
        promotion: None,
        castle: Some(CastleMove::QueenSide),
    };

    state = state.apply_move(&move2);
    assert_eq!(state.white_castle_rights, CastleRights::Neither);
    assert_eq!(state.black_castle_rights, CastleRights::Neither);
}

#[test]
fn player_board() {
    let mut board = PlayerBoard::start_position(Player::White);

    assert_eq!(board.all(), BitBoard::new(65535));
    assert_eq!(board.piece(Piece::Pawn), BitBoard::new(65280));

    board = board.with_piece(Piece::Knight, BitBoard::new(1234));
    assert_eq!(board.knights, BitBoard::new(1234))
}

