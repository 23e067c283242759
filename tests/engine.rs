use gladius::board::bitboard::{BitBoard, BLACK_START_PAWNS, WHITE_START_PAWNS};
use gladius::board::file::File;
use gladius::board::rank::Rank;
use gladius::engine::heuristic;
use gladius::rules::game_state::GameState;
use gladius::rules::player_board::PlayerBoard;

#[test]
pub fn heuristic_start() {
    let state = GameState::start_position();
    assert_eq!(heuristic::score(&state), 0);

    let state2 = GameState::default()
        .with_white_board(
            PlayerBoard::default()
                .with_rooks(BitBoard::empty().set_coordinate(File::H, Rank::Eight))
                .with_king(BitBoard::empty().set_coordinate(File::H, Rank::Seven)),
        )
        .with_black_board(
            PlayerBoard::default()
                .with_king(BitBoard::empty().set_coordinate(File::A, Rank::One))
                .with_rooks(BitBoard::empty().set_coordinate(File::H, Rank::One))
                .with_bishops(BitBoard::empty().set_coordinate(File::A, Rank::Three)),
        );

    assert!(heuristic::score(&state2) < 0);
}

#[test]
pub fn apply_mask_white_pawns() {
    let mut mask: [i32; 64] = [0; 64];
    for i in 0..64 {
        mask[i] = i as i32;
    }

    let bb = BitBoard(WHITE_START_PAWNS);
    let result = heuristic::apply_mask(bb, &mask);
    let expected = 412;
    assert_eq!(result, expected);
}

#[test]
pub fn apply_mask_black_pawns() {
    let mut mask: [i32; 64] = [0; 64];
    for i in 0..64 {
        mask[i] = i as i32;
    }

    let bb = BitBoard(BLACK_START_PAWNS);
    let result = heuristic::apply_mask(bb, &mask);
    let expected = 92;
    assert_eq!(result, expected);
}

#[test]
pub fn apply_mask_complex() {
    let mut mask: [i32; 64] = [0; 64];
    for i in 0..64 {
        mask[i] = (i + 1) as i32;
    }

    let bb = BitBoard::new(85937205623);
    println!("{:?}", bb);
    let result = heuristic::apply_mask(bb, &mask);
    let expected = 27 + 29 + 34 + 41 + 47 + 49 + 53 + 54 + 56 + 57 + 58 + 59 + 61 + 62 + 63;
    assert_eq!(result, expected);
}

#[test]
fn score_counts_material_and_doubled_pawns() {
    // A white knight on b1 against nothing: 300 for the piece, -40 for its square.
    let knight_only = GameState::default().with_white_board(
        PlayerBoard::default().with_knights(BitBoard::empty().set_coordinate(File::B, Rank::One)),
    );
    assert_eq!(heuristic::score(&knight_only), 300 - 40);

    // Two white pawns on the a file (a2, a3): 200 material, 50 for doubled,
    // 50 for isolated, and 5 + 5 from the pawn table.
    let doubled = GameState::default().with_white_board(
        PlayerBoard::default().with_pawns(
            BitBoard::empty()
                .set_coordinate(File::A, Rank::Two)
                .set_coordinate(File::A, Rank::Three),
        ),
    );
    assert_eq!(heuristic::score(&doubled), 200 - 50 - 50 + 5 + 5);
}
